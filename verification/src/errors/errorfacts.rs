use vstd::prelude::*;

use crate::errors::errorcode::{code_number, ErrorCode};
use crate::errors::luadiagnostic::DiagnosticSeverity;
use crate::errors::messageprovider::{
    description_spec, message_format_spec, title_spec, MessageProvider,
};
use crate::text::{push_str, push_zero_padded, string_from_chars, zero_padded};

verus! {

/// Utility methods for error codes.
pub struct ErrorFacts;

/// The diagnostic id of a code: `LUA` and the code's number printed with at least
/// four characters, zero-padded after the sign.
pub open spec fn id_spec(c: ErrorCode) -> Seq<char> {
    let n = code_number(c);
    if n < 0 {
        "LUA-"@ + zero_padded((-n) as nat, 3)
    } else {
        "LUA"@ + zero_padded(n as nat, 4)
    }
}

/// Whether a code is a warning: only the line-break warning is.
pub open spec fn is_warning_spec(c: ErrorCode) -> bool {
    c == ErrorCode::WrnLineBreakMayAffectErrorReporting
}

/// The severity of a code.
pub open spec fn severity_of(c: ErrorCode) -> DiagnosticSeverity {
    match c {
        ErrorCode::Void => DiagnosticSeverity::Void,
        ErrorCode::Unknown => DiagnosticSeverity::Unknown,
        _ => if is_warning_spec(c) {
            DiagnosticSeverity::Warning
        } else {
            DiagnosticSeverity::Error
        },
    }
}

impl ErrorFacts {
    /// The diagnostic id of a code, e.g. `LUA0001`.
    pub fn get_id(code: ErrorCode) -> (r: String)
        ensures
            r@ == id_spec(code),
    {
        let n = code.value();
        let mut out: Vec<char> = Vec::new();
        if n < 0 {
            push_str(&mut out, "LUA-");
            let m: i64 = -(n as i64);
            push_zero_padded(&mut out, m as u64, 3);
        } else {
            push_str(&mut out, "LUA");
            push_zero_padded(&mut out, n as u64, 4);
        }
        string_from_chars(out.as_slice())
    }

    /// Whether the code is a warning.
    pub fn is_warning(code: ErrorCode) -> (r: bool)
        ensures
            r == is_warning_spec(code),
    {
        matches!(code, ErrorCode::WrnLineBreakMayAffectErrorReporting)
    }

    /// Whether the code is fatal: no code is.
    pub fn is_fatal(code: ErrorCode) -> (r: bool)
        ensures
            !r,
    {
        false
    }

    /// Whether the code is informational: no code is.
    pub fn is_info(code: ErrorCode) -> (r: bool)
        ensures
            !r,
    {
        false
    }

    /// Whether the code is hidden: no code is, `Void` and `Unknown` included.
    pub fn is_hidden(code: ErrorCode) -> (r: bool)
        ensures
            !r,
    {
        false
    }

    /// The severity of the code.
    pub fn get_severity(code: ErrorCode) -> (r: DiagnosticSeverity)
        ensures
            r == severity_of(code),
    {
        match code {
            ErrorCode::Void => DiagnosticSeverity::Void,
            ErrorCode::Unknown => DiagnosticSeverity::Unknown,
            _ => {
                if Self::is_warning(code) {
                    DiagnosticSeverity::Warning
                } else if Self::is_info(code) {
                    DiagnosticSeverity::Info
                } else if Self::is_hidden(code) {
                    DiagnosticSeverity::Hidden
                } else {
                    DiagnosticSeverity::Error
                }
            },
        }
    }

    /// The message of the code (its message format).
    pub fn get_message(code: ErrorCode) -> (r: String)
        ensures
            r@ == message_format_spec(code),
    {
        MessageProvider::get_message_format(code)
    }

    /// The message format of the code.
    pub fn get_message_format(code: ErrorCode) -> (r: String)
        ensures
            r@ == message_format_spec(code),
    {
        MessageProvider::get_message_format(code)
    }

    /// The title of the code.
    pub fn get_title(code: ErrorCode) -> (r: String)
        ensures
            r@ == title_spec(code),
    {
        MessageProvider::get_title(code)
    }

    /// The description of the code.
    pub fn get_description(code: ErrorCode) -> (r: String)
        ensures
            r@ == description_spec(code),
    {
        MessageProvider::get_description(code)
    }

    /// The category of the code: every code is in the `Compiler` category.
    pub fn get_category(code: ErrorCode) -> (r: String)
        ensures
            r@ == "Compiler"@,
    {
        let s = "Compiler";
        s.to_owned()
    }
}

} // verus!
