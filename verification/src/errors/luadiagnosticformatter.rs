use vstd::prelude::*;

verus! {

/// The Lua diagnostic formatter.
pub struct LuaDiagnosticFormatter;

impl LuaDiagnosticFormatter {
    /// The diagnostic formatter instance.
    pub const INSTANCE: Self = Self;
}

} // verus!
