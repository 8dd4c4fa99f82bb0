use vstd::prelude::*;

use crate::errors::errorcode::ErrorCode;

verus! {

/// Severity level for diagnostics.
#[derive(Debug, Clone, Copy, PartialEq, Eq, Hash, Structural)]
pub enum DiagnosticSeverity {
    /// The diagnostic was lazily determined and does not need to be reported.
    Void,
    /// The severity has yet to be determined.
    Unknown,
    /// Hidden from the user.
    Hidden,
    /// Informational.
    Info,
    /// A warning.
    Warning,
    /// An error.
    Error,
}

/// The numeric value of a severity.
pub open spec fn severity_number(s: DiagnosticSeverity) -> int {
    match s {
        DiagnosticSeverity::Void => -2,
        DiagnosticSeverity::Unknown => -1,
        DiagnosticSeverity::Hidden => 0,
        DiagnosticSeverity::Info => 1,
        DiagnosticSeverity::Warning => 2,
        DiagnosticSeverity::Error => 3,
    }
}

impl DiagnosticSeverity {
    /// The numeric value of the severity.
    pub fn value(&self) -> (r: i32)
        ensures
            r == severity_number(*self),
    {
        match self {
            DiagnosticSeverity::Void => -2,
            DiagnosticSeverity::Unknown => -1,
            DiagnosticSeverity::Hidden => 0,
            DiagnosticSeverity::Info => 1,
            DiagnosticSeverity::Warning => 2,
            DiagnosticSeverity::Error => 3,
        }
    }
}

/// A Lua-specific diagnostic.
#[derive(Debug)]
pub struct LuaDiagnostic {
    /// The error code for this diagnostic.
    pub code: ErrorCode,
    /// The diagnostic message.
    pub message: String,
    /// The severity of the diagnostic.
    pub severity: DiagnosticSeverity,
    /// Whether this diagnostic is suppressed.
    pub is_suppressed: bool,
}

impl Clone for LuaDiagnostic {
    fn clone(&self) -> (r: Self)
        ensures
            r == *self,
    {
        LuaDiagnostic {
            code: self.code,
            message: self.message.clone(),
            severity: self.severity,
            is_suppressed: self.is_suppressed,
        }
    }
}

impl LuaDiagnostic {
    /// Creates a new diagnostic.
    pub fn new(code: ErrorCode, message: String, severity: DiagnosticSeverity, is_suppressed: bool) -> (r: Self)
        ensures
            r.code == code,
            r.message == message,
            r.severity == severity,
            r.is_suppressed == is_suppressed,
    {
        LuaDiagnostic { code, message, severity, is_suppressed }
    }

    /// Returns a copy of this diagnostic with the given severity.
    pub fn with_severity(&self, severity: DiagnosticSeverity) -> (r: Self)
        ensures
            r.code == self.code,
            r.message == self.message,
            r.severity == severity,
            r.is_suppressed == self.is_suppressed,
    {
        if self.severity != severity {
            Self::new(self.code, self.message.clone(), severity, self.is_suppressed)
        } else {
            self.clone()
        }
    }

    /// Returns a copy of this diagnostic with the given suppression status.
    pub fn with_is_suppressed(&self, is_suppressed: bool) -> (r: Self)
        ensures
            r.code == self.code,
            r.message == self.message,
            r.severity == self.severity,
            r.is_suppressed == is_suppressed,
    {
        if self.is_suppressed != is_suppressed {
            Self::new(self.code, self.message.clone(), self.severity, is_suppressed)
        } else {
            self.clone()
        }
    }
}

} // verus!
