use vstd::prelude::*;

verus! {

/// Defines what the type of strings using `` ` `` delimiters will be parsed as.
#[derive(Debug, Clone, Copy, PartialEq, Eq, Hash, Structural)]
pub enum BacktickStringType {
    /// Strings with `` ` `` delimiters have no meaning and will generate errors for unsupported interpolations.
    Disabled,
    /// Strings with `` ` `` delimiters will be parsed as FiveM hash string literals.
    HashLiteral,
    /// Strings with `` ` `` delimiters will be parsed as interpolated string literals.
    InterpolatedStringLiteral,
}

} // verus!
