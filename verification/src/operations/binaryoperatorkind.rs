use vstd::prelude::*;

verus! {

/// Kind of binary operator.
#[derive(Debug, Clone, Copy, PartialEq, Eq, Hash, Structural)]
pub enum BinaryOperatorKind {
    /// Represents unknown or error operator kind.
    Unknown,
    /// Represents the Lua `+` operator.
    Addition,
    /// Represents the Lua `-` operator.
    Subtraction,
    /// Represents the Lua `*` operator.
    Multiplication,
    /// Represents the Lua `/` operator.
    Division,
    /// Represents the Lua `%` operator.
    Modulus,
    /// Represents the Lua `^` operator.
    Exponentiation,
    /// Represents the Lua `..` operator.
    StringConcatenation,
    /// Represents the Lua `&` operator.
    BitwiseAnd,
    /// Represents the Lua `|` operator.
    BitwiseOr,
    /// Represents the Lua `~` operator.
    ExclusiveOr,
    /// Represents the Lua `<<` operator.
    LeftShift,
    /// Represents the Lua `>>` operator.
    RightShift,
    /// Represents the Lua `==` operator.
    Equals,
    /// Represents the Lua `!=` operator.
    NotEquals,
    /// Represents the Lua `>` operator.
    GreaterThan,
    /// Represents the Lua `>=` operator.
    GreaterThanOrEqual,
    /// Represents the Lua `<` operator.
    LessThan,
    /// Represents the Lua `<=` operator.
    LessThanOrEqual,
    /// Represents the Lua `and` operator.
    And,
    /// Represents the Lua `or` operator.
    Or,
}

impl BinaryOperatorKind {
    /// The numeric value of each kind, in declaration order starting at zero.
    pub open spec fn value_spec(self) -> i32 {
        match self {
            BinaryOperatorKind::Unknown => 0,
            BinaryOperatorKind::Addition => 1,
            BinaryOperatorKind::Subtraction => 2,
            BinaryOperatorKind::Multiplication => 3,
            BinaryOperatorKind::Division => 4,
            BinaryOperatorKind::Modulus => 5,
            BinaryOperatorKind::Exponentiation => 6,
            BinaryOperatorKind::StringConcatenation => 7,
            BinaryOperatorKind::BitwiseAnd => 8,
            BinaryOperatorKind::BitwiseOr => 9,
            BinaryOperatorKind::ExclusiveOr => 10,
            BinaryOperatorKind::LeftShift => 11,
            BinaryOperatorKind::RightShift => 12,
            BinaryOperatorKind::Equals => 13,
            BinaryOperatorKind::NotEquals => 14,
            BinaryOperatorKind::GreaterThan => 15,
            BinaryOperatorKind::GreaterThanOrEqual => 16,
            BinaryOperatorKind::LessThan => 17,
            BinaryOperatorKind::LessThanOrEqual => 18,
            BinaryOperatorKind::And => 19,
            BinaryOperatorKind::Or => 20,
        }
    }

    /// The numeric value of the kind (its position in the declaration, from zero).
    pub fn value(self) -> (r: i32)
        ensures
            r == self.value_spec(),
    {
        match self {
            BinaryOperatorKind::Unknown => 0,
            BinaryOperatorKind::Addition => 1,
            BinaryOperatorKind::Subtraction => 2,
            BinaryOperatorKind::Multiplication => 3,
            BinaryOperatorKind::Division => 4,
            BinaryOperatorKind::Modulus => 5,
            BinaryOperatorKind::Exponentiation => 6,
            BinaryOperatorKind::StringConcatenation => 7,
            BinaryOperatorKind::BitwiseAnd => 8,
            BinaryOperatorKind::BitwiseOr => 9,
            BinaryOperatorKind::ExclusiveOr => 10,
            BinaryOperatorKind::LeftShift => 11,
            BinaryOperatorKind::RightShift => 12,
            BinaryOperatorKind::Equals => 13,
            BinaryOperatorKind::NotEquals => 14,
            BinaryOperatorKind::GreaterThan => 15,
            BinaryOperatorKind::GreaterThanOrEqual => 16,
            BinaryOperatorKind::LessThan => 17,
            BinaryOperatorKind::LessThanOrEqual => 18,
            BinaryOperatorKind::And => 19,
            BinaryOperatorKind::Or => 20,
        }
    }
}

/// Distinct kinds have distinct numeric values.
pub proof fn law_binary_values_distinct(a: BinaryOperatorKind, b: BinaryOperatorKind)
    ensures
        a.value_spec() == b.value_spec() <==> a == b,
{
}

} // verus!
