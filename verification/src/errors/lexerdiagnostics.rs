//! The lexer's diagnostic rules, run over the source text.
//!
//! Spans are byte offsets into the source: an error reported "at the current
//! lexeme" covers the bytes from the lexeme's start to the current position.
use vstd::prelude::*;

use crate::errors::errorcode::ErrorCode;
use crate::errors::lexerdiagnostics::scanstate::{
    boff, lemma_boff_end, lemma_boff_mono, lemma_boff_step, lemma_char_width,
    lemma_utf8_len_encode, utf8_width,
};
use crate::text::{str_chars, string_from_chars};
use vstd::utf8::encode_utf8;

pub mod backtick;
pub mod digitvalue;
pub mod floatlimit;
pub mod identifiers;
pub mod lexer;
pub mod literalgates;
pub mod numbers;
pub mod scanstate;
pub mod shortstring;

verus! {

/// A diagnostic produced by the lexer rules.
#[derive(Debug, Clone, PartialEq, Eq)]
pub struct LexerDiagnostic {
    pub code: ErrorCode,
    /// The byte offset of the span start.
    pub start: usize,
    /// The byte width of the span.
    pub width: usize,
    /// The message arguments.
    pub arguments: Vec<String>,
    /// Whether the code is a warning.
    pub is_warning: bool,
}

/// The mathematical view of a [`LexerDiagnostic`].
pub struct LexDiag {
    pub code: ErrorCode,
    pub start: nat,
    pub width: nat,
    pub arguments: Seq<Seq<char>>,
    pub is_warning: bool,
}

impl View for LexerDiagnostic {
    type V = LexDiag;

    open spec fn view(&self) -> LexDiag {
        LexDiag {
            code: self.code,
            start: self.start as nat,
            width: self.width as nat,
            arguments: self.arguments@.map_values(|a: String| a@),
            is_warning: self.is_warning,
        }
    }
}

/// `b` is the byte offset of a character of `cs`, or its byte length.
pub open spec fn is_char_offset(cs: Seq<char>, b: nat) -> bool {
    exists|i: int| 0 <= i <= cs.len() && boff(cs, i) == b
}

/// The 1-based line and column at the first character whose byte offset is
/// `start` or more, scanning from character `k`: `\r`, `\n` and `\r\n` each
/// end a line, and columns count characters.
pub open spec fn line_col_from(cs: Seq<char>, start: nat, k: int, line: nat, col: nat, prev_cr: bool) -> (
    nat,
    nat,
)
    decreases cs.len() - k,
{
    if k < 0 || k >= cs.len() || boff(cs, k) >= start {
        (line, col)
    } else if cs[k] == '\r' {
        line_col_from(cs, start, k + 1, line + 1, 1, true)
    } else if cs[k] == '\n' {
        if !prev_cr {
            line_col_from(cs, start, k + 1, line + 1, 1, false)
        } else {
            line_col_from(cs, start, k + 1, line, col, false)
        }
    } else {
        line_col_from(cs, start, k + 1, line, col + 1, false)
    }
}

proof fn lemma_boff_strict(cs: Seq<char>, i: int, j: int)
    requires
        0 <= i < j <= cs.len(),
    ensures
        boff(cs, i) < boff(cs, j),
{
    lemma_boff_step(cs, i);
    lemma_char_width(cs[i]);
    lemma_boff_mono(cs, i + 1, j);
}

impl LexerDiagnostic {
    /// The text of the source over the span.
    pub fn squiggle(&self, source: &str) -> (r: String)
        requires
            is_char_offset(source@, self.start as nat),
            is_char_offset(source@, (self.start + self.width) as nat),
        ensures
            exists|i: int, j: int|
                0 <= i <= j <= source@.len() && boff(source@, i) == self.start && boff(source@, j)
                    == self.start + self.width && r@ == source@.subrange(i, j),
    {
        let chars = str_chars(source);
        let ghost cs = source@;
        let total = source.as_bytes().len();
        proof {
            lemma_utf8_len_encode(cs);
        }
        let ghost i0 = choose|i: int| 0 <= i <= cs.len() && boff(cs, i) == self.start;
        let ghost j0 = choose|j: int| 0 <= j <= cs.len() && boff(cs, j) == self.start + self.width;
        proof {
            if j0 < i0 {
                lemma_boff_strict(cs, j0, i0);
            }
            lemma_boff_end(cs);
            lemma_boff_mono(cs, j0, cs.len() as int);
            assert(total == encode_utf8(cs).len());
        }
        let start = self.start;
        let end = self.start + self.width;
        let mut v: Vec<char> = Vec::new();
        let mut off: usize = 0;
        let mut k: usize = 0;
        while k < chars.len()
            invariant
                chars@ == cs,
                k <= cs.len(),
                0 <= i0 <= j0 <= cs.len(),
                boff(cs, i0) == start,
                boff(cs, j0) == end,
                off == boff(cs, k as int),
                end <= boff(cs, cs.len() as int),
                boff(cs, cs.len() as int) <= total,
                v@ == cs.subrange(i0, if k < i0 {
                    i0
                } else if k > j0 {
                    j0
                } else {
                    k as int
                }),
            decreases cs.len() - k,
        {
            let c = chars[k];
            proof {
                lemma_boff_step(cs, k as int);
                lemma_char_width(c);
                lemma_boff_mono(cs, k + 1, cs.len() as int);
                if (k as int) < i0 {
                    lemma_boff_strict(cs, k as int, i0);
                }
                if (k as int) >= j0 {
                    lemma_boff_mono(cs, j0, k as int);
                }
                if i0 <= k && (k as int) < j0 {
                    lemma_boff_mono(cs, i0, k as int);
                    lemma_boff_strict(cs, k as int, j0);
                }
            }
            if off >= start && off < end {
                v.push(c);
            }
            proof {
                assert(v@ =~= cs.subrange(i0, if k + 1 < i0 {
                    i0
                } else if k + 1 > j0 {
                    j0
                } else {
                    k + 1
                }));
            }
            off = off + utf8_width(c);
            k = k + 1;
        }
        string_from_chars(&v)
    }

    /// The 1-based (line, column) of the span start. Columns count
    /// characters; `\r`, `\r\n` and `\n` each count as one line break.
    pub fn line_col(&self, source: &str) -> (r: (usize, usize))
        requires
            source@.len() < usize::MAX,
        ensures
            (r.0 as nat, r.1 as nat) == line_col_from(source@, self.start as nat, 0, 1, 1, false),
    {
        let chars = str_chars(source);
        let ghost cs = source@;
        let total = source.as_bytes().len();
        proof {
            lemma_boff_end(cs);
            lemma_utf8_len_encode(cs);
        }
        let mut line: usize = 1;
        let mut col: usize = 1;
        let mut prev_cr = false;
        let mut off: usize = 0;
        let mut k: usize = 0;
        while k < chars.len()
            invariant
                chars@ == cs,
                cs.len() < usize::MAX,
                k <= cs.len(),
                off == boff(cs, k as int),
                boff(cs, cs.len() as int) >= off,
                boff(cs, cs.len() as int) <= total,
                1 <= line <= k + 1,
                1 <= col <= k + 1,
                line_col_from(cs, self.start as nat, k as int, line as nat, col as nat, prev_cr)
                    == line_col_from(cs, self.start as nat, 0, 1, 1, false),
            ensures
                line_col_from(cs, self.start as nat, k as int, line as nat, col as nat, prev_cr)
                    == line_col_from(cs, self.start as nat, 0, 1, 1, false),
                line_col_from(cs, self.start as nat, k as int, line as nat, col as nat, prev_cr)
                    == (line as nat, col as nat),
            decreases cs.len() - k,
        {
            if off >= self.start {
                break;
            }
            let c = chars[k];
            proof {
                lemma_boff_step(cs, k as int);
                lemma_char_width(c);
                lemma_boff_mono(cs, k + 1, cs.len() as int);
            }
            if c == '\r' {
                line = line + 1;
                col = 1;
                prev_cr = true;
            } else if c == '\n' {
                if !prev_cr {
                    line = line + 1;
                    col = 1;
                }
                prev_cr = false;
            } else {
                col = col + 1;
                prev_cr = false;
            }
            off = off + utf8_width(c);
            k = k + 1;
        }
        (line, col)
    }
}

} // verus!
