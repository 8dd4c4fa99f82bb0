use vstd::prelude::*;

use crate::errors::errorcode::ErrorCode;

verus! {

/// Diagnostic information for Lua errors.
pub struct LuaDiagnosticInfo {
    /// The error code.
    pub code: ErrorCode,
    /// The formatted arguments.
    pub arguments: Vec<String>,
    /// Whether this is a warning being treated as an error.
    pub is_warning_as_error: bool,
}

impl LuaDiagnosticInfo {
    /// Creates diagnostic information with no arguments.
    pub fn new(code: ErrorCode) -> (r: Self)
        ensures
            r.code == code,
            r.arguments@ == Seq::<String>::empty(),
            !r.is_warning_as_error,
    {
        Self::with_arguments(code, Vec::new())
    }

    /// Creates diagnostic information with arguments.
    pub fn with_arguments(code: ErrorCode, arguments: Vec<String>) -> (r: Self)
        ensures
            r.code == code,
            r.arguments == arguments,
            !r.is_warning_as_error,
    {
        LuaDiagnosticInfo { code, arguments, is_warning_as_error: false }
    }

    /// Creates diagnostic information with the warning-as-error flag.
    pub fn with_warning_as_error(is_warning_as_error: bool, code: ErrorCode, arguments: Vec<String>) -> (r: Self)
        ensures
            r.code == code,
            r.arguments == arguments,
            r.is_warning_as_error == is_warning_as_error,
    {
        LuaDiagnosticInfo { code, arguments, is_warning_as_error }
    }
}

} // verus!
