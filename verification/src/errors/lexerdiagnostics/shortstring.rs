//! Quoted strings and their escape sequences.
use vstd::prelude::*;

use crate::errors::errorcode::ErrorCode;
use crate::errors::lexerdiagnostics::digitvalue::{lemma_power_mono, power};
use crate::errors::lexerdiagnostics::scanstate::{
    add_diag, at, at_pos, boff, diag, err_cur, err_from, err_if, hex_val, hexadecimal_value, is_dec,
    is_decimal, is_hex, is_hexadecimal, is_newline, is_nl, is_whitespace, is_ws, same_input,
    start_lexeme, with_only_sb, ws_end, dec_val, decimal_value, ScanState, Scanner,
};
use crate::luasyntaxoptions::LuaSyntaxOptions;

verus! {

pub proof fn lemma_ws_end(cs: Seq<char>, p: int)
    requires
        0 <= p <= cs.len(),
    ensures
        p <= ws_end(cs, p) <= cs.len(),
    decreases cs.len() - p,
{
    if p < cs.len() && is_ws(cs[p]) {
        lemma_ws_end(cs, p + 1);
    }
}

/// Up to three decimal digits of an escape (`read` of them are already in `num`).
pub open spec fn dec_escape(cs: Seq<char>, p: int, read: nat, num: nat) -> (int, nat)
    decreases 3 - read,
{
    if read < 3 && 0 <= p < cs.len() && is_dec(cs[p]) {
        dec_escape(cs, p + 1, read + 1, num * 10 + dec_val(cs[p]))
    } else {
        (p, num)
    }
}

/// The end of up to `max - read` hexadecimal digits at `p`.
pub open spec fn hex_run(cs: Seq<char>, p: int, read: nat, max: nat) -> int
    decreases max - read,
{
    if read < max && 0 <= p < cs.len() && is_hex(cs[p]) {
        hex_run(cs, p + 1, read + 1, max)
    } else {
        p
    }
}

/// Up to sixteen hexadecimal digits at `p` and their value (`read` of them
/// are already in `val`).
pub open spec fn hex_run_val(cs: Seq<char>, p: int, read: nat, val: nat) -> (int, nat)
    decreases 16 - read,
{
    if read < 16 && 0 <= p < cs.len() && is_hex(cs[p]) {
        hex_run_val(cs, p + 1, read + 1, val * 16 + hex_val(cs[p]))
    } else {
        (p, val)
    }
}

/// `\z`: the whitespace that follows is skipped; reported where it is not
/// accepted. `es` is the index of the backslash.
#[verifier::opaque]
pub open spec fn escape_z(cs: Seq<char>, o: LuaSyntaxOptions, s: ScanState, es: int) -> ScanState {
    let s2 = at_pos(s, ws_end(cs, s.pos));
    if !o.accept_invalid_escapes && !o.accept_whitespace_escape {
        err_from(cs, s2, es, ErrorCode::ErrWhitespaceEscapeNotSupportedInVersion)
    } else {
        s2
    }
}

/// `\ddd`: up to three decimal digits; a value above 255 is reported.
#[verifier::opaque]
pub open spec fn escape_dec(
    cs: Seq<char>,
    o: LuaSyntaxOptions,
    s: ScanState,
    es: int,
    first: char,
) -> ScanState {
    let (p2, num) = dec_escape(cs, s.pos, 1, dec_val(first));
    let s2 = at_pos(s, p2);
    if num > 255 {
        err_from(cs, s2, es, ErrorCode::ErrInvalidStringEscape)
    } else {
        s2
    }
}

/// `\xXX`: up to two hexadecimal digits. Missing digits are reported unless
/// invalid escapes are accepted and hexadecimal escapes are not; the escape
/// itself is reported where neither is accepted.
#[verifier::opaque]
pub open spec fn escape_x(cs: Seq<char>, o: LuaSyntaxOptions, s: ScanState, es: int) -> ScanState {
    let q = s.pos;
    let silent = o.accept_invalid_escapes && !o.accept_hex_escapes_in_strings;
    let p2 = hex_run(cs, q, 0, 2);
    let s2 = at_pos(s, p2);
    let s3 = if p2 - q < 1 && !silent {
        err_from(cs, s2, es, ErrorCode::ErrInvalidStringEscape)
    } else {
        s2
    };
    if !o.accept_invalid_escapes && !o.accept_hex_escapes_in_strings {
        err_from(cs, s3, es, ErrorCode::ErrHexStringEscapesNotSupportedInVersion)
    } else {
        s3
    }
}

/// The characters `10FFFF`.
pub open spec fn max_code_point_text() -> Seq<char> {
    seq!['1', '0', 'F', 'F', 'F', 'F']
}

/// The braces and digits of `\u{X...}`: whether the `{` is missing, the value
/// of up to sixteen hexadecimal digits, and the state after the digits; no
/// digit at all is reported.
#[verifier::opaque]
pub open spec fn escape_u_digits(cs: Seq<char>, s: ScanState, es: int) -> (bool, nat, ScanState) {
    let p = s.pos;
    let missing_open = at(cs, p) != Some('{');
    let p1 = if missing_open {
        p
    } else {
        p + 1
    };
    let (p2, cp) = hex_run_val(cs, p1, 0, 0);
    (missing_open, cp, err_if(cs, at_pos(s, p2), p2 - p1 < 1, es, ErrorCode::ErrHexDigitExpected))
}

/// A value above U+10FFFF, reported with `10FFFF` as the argument.
#[verifier::opaque]
pub open spec fn too_large_if(cs: Seq<char>, s: ScanState, cond: bool, es: int) -> ScanState {
    if cond {
        add_diag(
            s,
            diag(
                ErrorCode::ErrEscapeTooLarge,
                boff(cs, es) as int,
                boff(cs, s.pos) - boff(cs, es),
                seq![max_code_point_text()],
            ),
        )
    } else {
        s
    }
}

/// The reports of `\u{X...}` after its closing `}`, in order: a missing
/// `{`, a missing `}`, a value above U+10FFFF, and the escape itself where it
/// is not accepted.
#[verifier::opaque]
pub open spec fn escape_u_reports(
    cs: Seq<char>,
    o: LuaSyntaxOptions,
    s: ScanState,
    es: int,
    missing_open: bool,
    missing_close: bool,
    cp: nat,
) -> ScanState {
    let s5 = err_if(cs, s, missing_open, es, ErrorCode::ErrUnicodeEscapeMissingOpenBrace);
    let s6 = err_if(cs, s5, missing_close, es, ErrorCode::ErrUnicodeEscapeMissingCloseBrace);
    let s7 = too_large_if(cs, s6, cp > 0x10FFFF, es);
    err_if(
        cs,
        s7,
        !o.accept_invalid_escapes && !o.accept_unicode_escape,
        es,
        ErrorCode::ErrUnicodeEscapesNotSupportedLuaInVersion,
    )
}

/// The closing `}` of `\u{X...}` and the reports that follow.
#[verifier::opaque]
pub open spec fn escape_u_close(
    cs: Seq<char>,
    o: LuaSyntaxOptions,
    s: ScanState,
    es: int,
    missing_open: bool,
    cp: nat,
) -> ScanState {
    let p2 = s.pos;
    let missing_close = at(cs, p2) != Some('}');
    let p3 = if missing_close {
        p2
    } else {
        p2 + 1
    };
    escape_u_reports(cs, o, at_pos(s, p3), es, missing_open, missing_close, cp)
}

/// `\u{X...}`.
#[verifier::opaque]
pub open spec fn escape_u(cs: Seq<char>, o: LuaSyntaxOptions, s: ScanState, es: int) -> ScanState {
    let (missing_open, cp, s3) = escape_u_digits(cs, s, es);
    escape_u_close(cs, o, s3, es, missing_open, cp)
}

pub open spec fn is_simple_escape(ch: char) -> bool {
    ch == 'a' || ch == 'b' || ch == 'f' || ch == 'n' || ch == 'r' || ch == 't' || ch == 'v' || ch
        == '\\' || ch == '\'' || ch == '"'
}

/// An escape sequence; the backslash is at `pos`.
#[verifier::opaque]
pub open spec fn escape(cs: Seq<char>, o: LuaSyntaxOptions, s: ScanState) -> ScanState {
    let es = s.pos;
    let p = es + 1;
    if !(0 <= p < cs.len()) {
        at_pos(s, p)
    } else {
        let ch = cs[p];
        let q = p + 1;
        let s1 = at_pos(s, q);
        if is_simple_escape(ch) {
            s1
        } else if is_nl(ch) {
            if q < cs.len() && is_nl(cs[q]) && cs[q] != ch {
                at_pos(s, q + 1)
            } else {
                s1
            }
        } else if ch == 'z' {
            escape_z(cs, o, s1, es)
        } else if is_dec(ch) {
            escape_dec(cs, o, s1, es, ch)
        } else if ch == 'x' {
            escape_x(cs, o, s1, es)
        } else if ch == 'u' {
            escape_u(cs, o, s1, es)
        } else if !o.accept_invalid_escapes {
            err_from(cs, s1, es, ErrorCode::ErrInvalidStringEscape)
        } else {
            s1
        }
    }
}

/// One step in the body of a string quoted with `quote`: whether the string
/// ended, and the state after the step. A line break or the end of the input
/// leaves the string unfinished, which is reported.
#[verifier::opaque]
pub open spec fn short_step(cs: Seq<char>, o: LuaSyntaxOptions, s: ScanState, quote: char) -> (
    bool,
    ScanState,
) {
    if !(0 <= s.pos < cs.len()) || is_nl(cs[s.pos]) {
        (true, err_cur(cs, s, ErrorCode::ErrUnfinishedString))
    } else if cs[s.pos] == quote {
        (true, at_pos(s, s.pos + 1))
    } else if cs[s.pos] == '\\' {
        (false, escape(cs, o, s))
    } else {
        (false, at_pos(s, s.pos + 1))
    }
}

/// The body of a string quoted with `quote`.
pub open spec fn short_body(cs: Seq<char>, o: LuaSyntaxOptions, s: ScanState, quote: char) -> ScanState
    decreases cs.len() - s.pos,
{
    let (done, s2) = short_step(cs, o, s, quote);
    if done {
        s2
    } else if s.pos < s2.pos <= cs.len() {
        short_body(cs, o, s2, quote)
    } else {
        s2
    }
}

/// A string quoted with `"` or `'`; the quote is at `pos`.
#[verifier::opaque]
pub open spec fn short_string(cs: Seq<char>, o: LuaSyntaxOptions, s: ScanState) -> ScanState {
    let q = cs[s.pos];
    with_only_sb(short_body(cs, o, at_pos(start_lexeme(s), s.pos + 1), q), true)
}

impl Scanner {
    /// Skips whitespace.
    fn skip_whitespace(&mut self)
        requires
            old(self).wf(),
        ensures
            final(self).wf(),
            same_input(*final(self), *old(self)),
            final(self).st() == at_pos(old(self).st(), ws_end(old(self).chars@, old(self).pos as int)),
            final(self).pos >= old(self).pos,
    {
        while self.pos < self.chars.len() && is_whitespace(self.chars[self.pos])
            invariant
                self.wf(),
                same_input(*self, *old(self)),
                self.pos >= old(self).pos,
                self.st() == at_pos(old(self).st(), self.pos as int),
                ws_end(self.chars@, self.pos as int) == ws_end(old(self).chars@, old(self).pos as int),
            decreases self.chars@.len() - self.pos,
        {
            self.pos = self.pos + 1;
        }
    }

    fn scan_escape_z(&mut self, es: usize)
        requires
            old(self).wf(),
            es <= old(self).pos,
        ensures
            final(self).wf(),
            same_input(*final(self), *old(self)),
            final(self).st() == escape_z(old(self).chars@, old(self).options, old(self).st(), es as int),
            final(self).pos >= old(self).pos,
    {
        proof {
            reveal(escape_z);
        }
        self.skip_whitespace();
        if !self.options.accept_invalid_escapes && !self.options.accept_whitespace_escape {
            self.error_from(es, ErrorCode::ErrWhitespaceEscapeNotSupportedInVersion);
        }
    }

    fn scan_escape_dec(&mut self, es: usize, first: char)
        requires
            old(self).wf(),
            es <= old(self).pos,
            is_dec(first),
        ensures
            final(self).wf(),
            same_input(*final(self), *old(self)),
            final(self).st() == escape_dec(
                old(self).chars@,
                old(self).options,
                old(self).st(),
                es as int,
                first,
            ),
            final(self).pos >= old(self).pos,
    {
        proof {
            reveal(escape_dec);
        }
        let mut num: u64 = decimal_value(first);
        let mut read: u64 = 1;
        while read < 3 && self.pos < self.chars.len() && is_decimal(self.chars[self.pos])
            invariant
                self.wf(),
                same_input(*self, *old(self)),
                1 <= read <= 3,
                num < 1000,
                read == 1 ==> num < 10,
                read == 2 ==> num < 100,
                self.pos >= old(self).pos,
                self.st() == at_pos(old(self).st(), self.pos as int),
                dec_escape(self.chars@, self.pos as int, read as nat, num as nat) == dec_escape(
                    old(self).chars@,
                    old(self).pos as int,
                    1,
                    dec_val(first),
                ),
            decreases 3 - read,
        {
            let d = decimal_value(self.chars[self.pos]);
            num = num * 10 + d;
            read = read + 1;
            self.pos = self.pos + 1;
        }
        if num > 255 {
            self.error_from(es, ErrorCode::ErrInvalidStringEscape);
        }
    }

    fn scan_escape_x(&mut self, es: usize)
        requires
            old(self).wf(),
            es <= old(self).pos,
        ensures
            final(self).wf(),
            same_input(*final(self), *old(self)),
            final(self).st() == escape_x(old(self).chars@, old(self).options, old(self).st(), es as int),
            final(self).pos >= old(self).pos,
    {
        proof {
            reveal(escape_x);
        }
        let silent = self.options.accept_invalid_escapes && !self.options.accept_hex_escapes_in_strings;
        let q = self.pos;
        let mut read: usize = 0;
        while read < 2 && self.pos < self.chars.len() && is_hexadecimal(self.chars[self.pos])
            invariant
                self.wf(),
                same_input(*self, *old(self)),
                read <= 2,
                q == old(self).pos,
                self.pos == q + read,
                self.st() == at_pos(old(self).st(), self.pos as int),
                hex_run(self.chars@, self.pos as int, read as nat, 2) == hex_run(
                    old(self).chars@,
                    q as int,
                    0,
                    2,
                ),
            decreases 2 - read,
        {
            read = read + 1;
            self.pos = self.pos + 1;
        }
        if read < 1 && !silent {
            self.error_from(es, ErrorCode::ErrInvalidStringEscape);
        }
        if !self.options.accept_invalid_escapes && !self.options.accept_hex_escapes_in_strings {
            self.error_from(es, ErrorCode::ErrHexStringEscapesNotSupportedInVersion);
        }
    }

    /// Reads up to sixteen hexadecimal digits and returns their value.
    fn scan_hex_value(&mut self) -> (r: u128)
        requires
            old(self).wf(),
        ensures
            final(self).wf(),
            same_input(*final(self), *old(self)),
            (final(self).pos as int, r as nat) == hex_run_val(
                old(self).chars@,
                old(self).pos as int,
                0,
                0,
            ),
            final(self).st() == at_pos(old(self).st(), final(self).pos as int),
            final(self).pos >= old(self).pos,
    {
        let mut read: usize = 0;
        let mut cp: u128 = 0;
        proof {
            reveal_with_fuel(power, 17);
        }
        while read < 16 && self.pos < self.chars.len() && is_hexadecimal(self.chars[self.pos])
            invariant
                self.wf(),
                same_input(*self, *old(self)),
                read <= 16,
                self.pos == old(self).pos + read,
                (cp as nat) < power(16, read as nat),
                power(16, 16) == 0x1_0000_0000_0000_0000,
                self.st() == at_pos(old(self).st(), self.pos as int),
                hex_run_val(self.chars@, self.pos as int, read as nat, cp as nat) == hex_run_val(
                    old(self).chars@,
                    old(self).pos as int,
                    0,
                    0,
                ),
            decreases 16 - read,
        {
            let d = hexadecimal_value(self.chars[self.pos]);
            proof {
                lemma_power_mono(16, (read + 1) as nat, 16);
                assert(power(16, (read + 1) as nat) == 16 * power(16, read as nat));
                assert((cp as nat) * 16 + (d as nat) < power(16, (read + 1) as nat)) by (nonlinear_arith)
                    requires
                        (cp as nat) < power(16, read as nat),
                        d < 16,
                        power(16, (read + 1) as nat) == 16 * power(16, read as nat),
                ;
            }
            cp = cp * 16 + d as u128;
            read = read + 1;
            self.pos = self.pos + 1;
        }
        cp
    }

    fn scan_escape_u_digits(&mut self, es: usize) -> (r: (bool, u128))
        requires
            old(self).wf(),
            es <= old(self).pos,
        ensures
            final(self).wf(),
            same_input(*final(self), *old(self)),
            (r.0, r.1 as nat, final(self).st()) == escape_u_digits(
                old(self).chars@,
                old(self).st(),
                es as int,
            ),
            final(self).pos >= old(self).pos,
    {
        proof {
            reveal(escape_u_digits);
        }
        let missing_open = self.peek() != Some('{');
        if !missing_open {
            self.pos = self.pos + 1;
        }
        let p1 = self.pos;
        let cp = self.scan_hex_value();
        let none = self.pos - p1 < 1;
        self.error_from_if(none, es, ErrorCode::ErrHexDigitExpected);
        (missing_open, cp)
    }

    fn report_too_large_if(&mut self, cond: bool, es: usize)
        requires
            old(self).wf(),
            es <= old(self).pos,
        ensures
            final(self).wf(),
            same_input(*final(self), *old(self)),
            final(self).st() == too_large_if(old(self).chars@, old(self).st(), cond, es as int),
            final(self).pos == old(self).pos,
    {
        proof {
            reveal(too_large_if);
        }
        if cond {
            let start = self.byte_of[es];
            let end = self.byte_of[self.pos];
            proof {
                assert(self.byte_of@[self.pos as int] <= self.byte_of@[self.chars@.len() as int]);
                assert(self.byte_of@[self.chars@.len() as int] == boff(
                    self.chars@,
                    self.chars@.len() as int,
                ));
            }
            let digits = vec!['1', '0', 'F', 'F', 'F', 'F'];
            proof {
                assert(digits@ =~= max_code_point_text());
            }
            let text = crate::text::string_from_chars(&digits);
            let args = vec![text];
            proof {
                assert(args@.map_values(|a: String| a@) =~= seq![max_code_point_text()]);
            }
            self.error_at(ErrorCode::ErrEscapeTooLarge, start, end - start, args);
        }
    }

    fn report_escape_u(&mut self, es: usize, missing_open: bool, missing_close: bool, cp: u128)
        requires
            old(self).wf(),
            es <= old(self).pos,
        ensures
            final(self).wf(),
            same_input(*final(self), *old(self)),
            final(self).st() == escape_u_reports(
                old(self).chars@,
                old(self).options,
                old(self).st(),
                es as int,
                missing_open,
                missing_close,
                cp as nat,
            ),
            final(self).pos == old(self).pos,
    {
        self.error_from_if(missing_open, es, ErrorCode::ErrUnicodeEscapeMissingOpenBrace);
        self.error_from_if(missing_close, es, ErrorCode::ErrUnicodeEscapeMissingCloseBrace);
        self.report_too_large_if(cp > 0x10FFFF, es);
        let gate = !self.options.accept_invalid_escapes && !self.options.accept_unicode_escape;
        self.error_from_if(gate, es, ErrorCode::ErrUnicodeEscapesNotSupportedLuaInVersion);
        proof {
            reveal(escape_u_reports);
        }
    }

    fn scan_escape_u_close(&mut self, es: usize, missing_open: bool, cp: u128)
        requires
            old(self).wf(),
            es <= old(self).pos,
        ensures
            final(self).wf(),
            same_input(*final(self), *old(self)),
            final(self).st() == escape_u_close(
                old(self).chars@,
                old(self).options,
                old(self).st(),
                es as int,
                missing_open,
                cp as nat,
            ),
            final(self).pos >= old(self).pos,
    {
        let missing_close = self.peek() != Some('}');
        if !missing_close {
            self.pos = self.pos + 1;
        }
        self.report_escape_u(es, missing_open, missing_close, cp);
        proof {
            reveal(escape_u_close);
        }
    }

    fn scan_escape_u(&mut self, es: usize)
        requires
            old(self).wf(),
            es <= old(self).pos,
        ensures
            final(self).wf(),
            same_input(*final(self), *old(self)),
            final(self).st() == escape_u(old(self).chars@, old(self).options, old(self).st(), es as int),
            final(self).pos >= old(self).pos,
    {
        proof {
            reveal(escape_u);
        }
        let (missing_open, cp) = self.scan_escape_u_digits(es);
        self.scan_escape_u_close(es, missing_open, cp);
    }

    /// Scans an escape sequence; the backslash is at the current position.
    pub fn scan_escape_sequence(&mut self)
        requires
            old(self).wf(),
            old(self).pos < old(self).chars@.len(),
        ensures
            final(self).wf(),
            same_input(*final(self), *old(self)),
            final(self).st() == escape(old(self).chars@, old(self).options, old(self).st()),
            final(self).pos > old(self).pos,
    {
        proof {
            reveal(escape);
        }
        let es = self.pos;
        self.pos = self.pos + 1;
        if self.pos >= self.chars.len() {
            return ;
        }
        let ch = self.chars[self.pos];
        self.pos = self.pos + 1;
        if ch == 'a' || ch == 'b' || ch == 'f' || ch == 'n' || ch == 'r' || ch == 't' || ch == 'v'
            || ch == '\\' || ch == '\'' || ch == '"' {
        } else if is_newline(ch) {
            if self.pos < self.chars.len() {
                let next = self.chars[self.pos];
                if is_newline(next) && next != ch {
                    self.pos = self.pos + 1;
                }
            }
        } else if ch == 'z' {
            self.scan_escape_z(es);
        } else if is_decimal(ch) {
            self.scan_escape_dec(es, ch);
        } else if ch == 'x' {
            self.scan_escape_x(es);
        } else if ch == 'u' {
            self.scan_escape_u(es);
        } else if !self.options.accept_invalid_escapes {
            self.error_from(es, ErrorCode::ErrInvalidStringEscape);
        }
    }

    fn short_step_exec(&mut self, quote: char) -> (done: bool)
        requires
            old(self).wf(),
        ensures
            final(self).wf(),
            same_input(*final(self), *old(self)),
            (done, final(self).st()) == short_step(
                old(self).chars@,
                old(self).options,
                old(self).st(),
                quote,
            ),
            !done ==> old(self).pos < final(self).pos,
            old(self).pos <= final(self).pos,
    {
        proof {
            reveal(short_step);
        }
        if self.pos >= self.chars.len() || is_newline(self.chars[self.pos]) {
            self.error_current(ErrorCode::ErrUnfinishedString);
            return true;
        }
        let c = self.chars[self.pos];
        if c == quote {
            self.pos = self.pos + 1;
            true
        } else if c == '\\' {
            self.scan_escape_sequence();
            false
        } else {
            self.pos = self.pos + 1;
            false
        }
    }

    /// Scans a quoted string; the quote is at the current position.
    pub fn scan_short_string(&mut self)
        requires
            old(self).wf(),
            old(self).pos < old(self).chars@.len(),
        ensures
            final(self).wf(),
            same_input(*final(self), *old(self)),
            final(self).st() == short_string(old(self).chars@, old(self).options, old(self).st()),
            final(self).pos > old(self).pos,
    {
        proof {
            reveal(short_string);
        }
        let quote = self.chars[self.pos];
        self.lexeme_start = self.pos;
        self.pos = self.pos + 1;
        let ghost s1 = self.st();
        loop
            invariant_except_break
                short_body(self.chars@, self.options, self.st(), quote) == short_body(
                    self.chars@,
                    self.options,
                    s1,
                    quote,
                ),
            invariant
                self.wf(),
                same_input(*self, *old(self)),
                self.pos > old(self).pos,
                quote == old(self).chars@[old(self).pos as int],
                s1 == at_pos(start_lexeme(old(self).st()), old(self).pos + 1),
            ensures
                self.st() == short_body(self.chars@, self.options, s1, quote),
            decreases self.chars@.len() - self.pos,
        {
            let done = self.short_step_exec(quote);
            if done {
                break;
            }
        }
        self.only_sb = true;
    }
}


} // verus!
