use vstd::prelude::*;

verus! {

/// Kind of unary operator.
#[derive(Debug, Clone, Copy, PartialEq, Eq, Hash, Structural)]
pub enum UnaryOperatorKind {
    /// Represents unknown or error operator kind.
    Unknown,
    /// Represents the Lua `#` operator.
    Length,
    /// Represents the Lua `not` operator.
    Not,
    /// Represents the Lua `-` operator.
    Negation,
    /// Represents the Lua `~` operator.
    BitwiseNot,
}

impl UnaryOperatorKind {
    /// The numeric value of each kind, in declaration order starting at zero.
    pub open spec fn value_spec(self) -> u8 {
        match self {
            UnaryOperatorKind::Unknown => 0,
            UnaryOperatorKind::Length => 1,
            UnaryOperatorKind::Not => 2,
            UnaryOperatorKind::Negation => 3,
            UnaryOperatorKind::BitwiseNot => 4,
        }
    }

    /// The numeric value of the kind (its position in the declaration, from zero).
    pub fn value(self) -> (r: u8)
        ensures
            r == self.value_spec(),
    {
        match self {
            UnaryOperatorKind::Unknown => 0,
            UnaryOperatorKind::Length => 1,
            UnaryOperatorKind::Not => 2,
            UnaryOperatorKind::Negation => 3,
            UnaryOperatorKind::BitwiseNot => 4,
        }
    }
}

/// Distinct kinds have distinct numeric values.
pub proof fn law_unary_values_distinct(a: UnaryOperatorKind, b: UnaryOperatorKind)
    ensures
        a.value_spec() == b.value_spec() <==> a == b,
{
}

} // verus!
