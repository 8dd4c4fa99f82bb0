use vstd::prelude::*;

use crate::errors::errorcode::ErrorCode;

verus! {

/// Diagnostic information for syntax errors with position information.
pub struct SyntaxDiagnosticInfo {
    /// The offset in the source text.
    pub offset: i32,
    /// The width of the error span.
    pub width: i32,
    /// The error code.
    pub code: ErrorCode,
    /// The formatted arguments.
    pub arguments: Vec<String>,
}

/// A copy of a list of strings, element by element.
pub fn clone_strings(v: &Vec<String>) -> (r: Vec<String>)
    ensures
        r@ == v@,
{
    let mut r: Vec<String> = Vec::new();
    let mut i: usize = 0;
    while i < v.len()
        invariant
            i <= v@.len(),
            r@ == v@.take(i as int),
        decreases v@.len() - i,
    {
        r.push(v[i].clone());
        i = i + 1;
        proof {
            assert(v@.take(i as int) == v@.take(i - 1).push(v@[i - 1]));
        }
    }
    proof {
        assert(v@.take(v@.len() as int) == v@);
    }
    r
}

impl SyntaxDiagnosticInfo {
    /// Creates diagnostic information for a span; the width is never negative.
    pub fn new(offset: i32, width: i32, code: ErrorCode, arguments: Vec<String>) -> (r: Self)
        requires
            width >= 0,
        ensures
            r.offset == offset,
            r.width == width,
            r.code == code,
            r.arguments == arguments,
    {
        SyntaxDiagnosticInfo { offset, width, code, arguments }
    }

    /// Creates diagnostic information for a span with no arguments.
    pub fn with_code(offset: i32, width: i32, code: ErrorCode) -> (r: Self)
        requires
            width >= 0,
        ensures
            r.offset == offset,
            r.width == width,
            r.code == code,
            r.arguments@ == Seq::<String>::empty(),
    {
        Self::new(offset, width, code, Vec::new())
    }

    /// Creates diagnostic information with arguments at offset 0 with width 0.
    pub fn with_arguments(code: ErrorCode, arguments: Vec<String>) -> (r: Self)
        ensures
            r.offset == 0,
            r.width == 0,
            r.code == code,
            r.arguments == arguments,
    {
        Self::new(0, 0, code, arguments)
    }

    /// Creates diagnostic information holding only a code.
    pub fn code_only(code: ErrorCode) -> (r: Self)
        ensures
            r.offset == 0,
            r.width == 0,
            r.code == code,
            r.arguments@ == Seq::<String>::empty(),
    {
        Self::new(0, 0, code, Vec::new())
    }

    /// Returns a copy of this information with a new offset.
    pub fn with_offset(&self, offset: i32) -> (r: Self)
        ensures
            r.offset == offset,
            r.width == self.width,
            r.code == self.code,
            r.arguments@ == self.arguments@,
    {
        SyntaxDiagnosticInfo {
            offset,
            width: self.width,
            code: self.code,
            arguments: clone_strings(&self.arguments),
        }
    }
}

} // verus!
