use vstd::prelude::*;

verus! {

/// The type of continue the lua flavor being parsed has.
#[derive(Debug, Clone, Copy, PartialEq, Eq, Hash, Structural)]
pub enum ContinueType {
    /// No continue.
    Disabled,
    /// Continue is a keyword.
    Keyword,
    /// Continue is a contextual keyword (is only a keyword when used as a statement).
    ContextualKeyword,
}

} // verus!
