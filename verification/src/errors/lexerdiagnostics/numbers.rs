//! Number literals: hexadecimal, binary, octal and decimal, with their
//! suffixes, underscores and range checks.
use vstd::prelude::*;

use crate::errors::errorcode::ErrorCode;
use crate::errors::lexerdiagnostics::digitvalue::{digits_below, digits_value};
use crate::errors::lexerdiagnostics::floatlimit::{
    decimal_overflows, decimal_overflows_exec, hex_overflows, hex_overflows_exec,
};
use crate::errors::lexerdiagnostics::scanstate::{
    at, at_pos, err_if, hex_val, hexadecimal_value, is_dec, is_hex, is_decimal, is_hexadecimal,
    same_input, start_lexeme, with_only_sb, ScanState, Scanner,
};
use crate::integerformats::IntegerFormats;
use crate::luasyntaxoptions::LuaSyntaxOptions;

verus! {

/// Whether `c` is a digit of `base` (2, 8, 10 or 16).
pub open spec fn is_base_digit(c: char, base: nat) -> bool {
    if base == 2 {
        c == '0' || c == '1'
    } else if base == 8 {
        48 <= (c as u32) <= 55
    } else if base == 10 {
        is_dec(c)
    } else {
        is_hex(c)
    }
}

/// A run of digits of `base` and underscores at `p`: its end, the digit
/// values in order, and whether it holds an underscore.
pub open spec fn digit_run(cs: Seq<char>, p: int, base: nat) -> (int, Seq<u8>, bool)
    decreases cs.len() - p,
{
    if 0 <= p < cs.len() && is_base_digit(cs[p], base) {
        let r = digit_run(cs, p + 1, base);
        (r.0, seq![hex_val(cs[p]) as u8] + r.1, r.2)
    } else if 0 <= p < cs.len() && cs[p] == '_' {
        let r = digit_run(cs, p + 1, base);
        (r.0, r.1, true)
    } else {
        (p, seq![], false)
    }
}

/// The end of a run of underscores at `p`.
pub open spec fn underscores_end(cs: Seq<char>, p: int) -> int
    decreases cs.len() - p,
{
    if 0 <= p < cs.len() && cs[p] == '_' {
        underscores_end(cs, p + 1)
    } else {
        p
    }
}

/// The character at `p` is the lower-case letter `lower`, in either case.
pub open spec fn ci_at(cs: Seq<char>, p: int, lower: char) -> bool {
    0 <= p < cs.len() && (cs[p] == lower || (cs[p] as u32) + 32 == (lower as u32))
}

/// A suffix at `p`: `ull` (1), `ll` (2), `i` (3) or none (0), in any case.
pub open spec fn suffix(cs: Seq<char>, p: int) -> (int, nat) {
    if ci_at(cs, p, 'u') && ci_at(cs, p + 1, 'l') && ci_at(cs, p + 2, 'l') {
        (p + 3, 1)
    } else if ci_at(cs, p, 'l') && ci_at(cs, p + 1, 'l') {
        (p + 2, 2)
    } else if ci_at(cs, p, 'i') {
        (p + 1, 3)
    } else {
        (p, 0)
    }
}

/// An exponent part at `p` whose marker is `marker` in either case: its end,
/// whether there is one, whether its sign is `-`, its digits, and whether it
/// holds an underscore.
#[verifier::opaque]
pub open spec fn exponent_part(cs: Seq<char>, p: int, marker: char) -> (int, bool, bool, Seq<u8>, bool) {
    if ci_at(cs, p, marker) {
        let q = p + 1;
        let q2 = if at(cs, q) == Some('+') || at(cs, q) == Some('-') {
            q + 1
        } else {
            q
        };
        let r = digit_run(cs, q2, 10);
        (r.0, true, at(cs, q) == Some('-'), r.1, r.2)
    } else {
        (p, false, false, seq![], false)
    }
}

/// The digits before and after an optional `.` at `p`: the end, the integer
/// digits, the fraction digits, whether there is a point, and whether an
/// underscore was seen.
#[verifier::opaque]
pub open spec fn mantissa(cs: Seq<char>, p: int, base: nat) -> (int, Seq<u8>, Seq<u8>, bool, bool) {
    let r1 = digit_run(cs, p, base);
    let has_dot = at(cs, r1.0) == Some('.');
    let r2 = if has_dot {
        digit_run(cs, r1.0 + 1, base)
    } else {
        (r1.0, seq![], false)
    };
    (r2.0, r1.1, r2.1, has_dot, r1.2 || r2.2)
}

pub open spec fn two_to_63() -> nat {
    0x8000_0000_0000_0000
}

pub open spec fn two_to_64() -> nat {
    0x1_0000_0000_0000_0000
}

/// The reports of a decimal number once scanned, in order: a 64-bit suffix on
/// a float, underscores, suffixes, and the range check (the integer part for
/// `ull` below 2^64, for `ll` and integers below 2^63; the value as a double
/// for complex numbers, floats, and where integers are not supported).
#[verifier::opaque]
pub open spec fn decimal_reports(
    cs: Seq<char>,
    o: LuaSyntaxOptions,
    s: ScanState,
    is_float: bool,
    suf: nat,
    has_us: bool,
    idig: Seq<u8>,
    fdig: Seq<u8>,
    has_e: bool,
    neg: bool,
    edig: Seq<u8>,
) -> ScanState {
    let ls = s.lexeme_start;
    let ul = suf == 1 && !is_float;
    let sl = suf == 2 && !is_float;
    let cx = suf == 3;
    let v = digits_value(idig, 10);
    let as_double = cx || is_float || o.decimal_integer_format == IntegerFormats::NotSupported;
    let too_large = if ul {
        v >= two_to_64()
    } else if sl {
        v >= two_to_63()
    } else {
        !as_double && v >= two_to_63()
    };
    let overflow = !ul && !sl && as_double && decimal_overflows(idig + fdig, fdig.len(), has_e, neg, edig);
    let s2 = err_if(cs, s, (suf == 1 || suf == 2) && is_float, ls, ErrorCode::ErrLuajitSuffixInFloat);
    let s3 = err_if(
        cs,
        s2,
        has_us && !o.accept_underscore_in_number_literals,
        ls,
        ErrorCode::ErrUnderscoreInNumericLiteralNotSupportedInVersion,
    );
    let s4 = err_if(
        cs,
        s3,
        (ul || sl || cx) && !o.accept_lua_jit_number_suffixes,
        ls,
        ErrorCode::ErrNumberSuffixNotSupportedInVersion,
    );
    let s5 = err_if(cs, s4, too_large, ls, ErrorCode::ErrNumericLiteralTooLarge);
    err_if(cs, s5, overflow, ls, ErrorCode::ErrDoubleOverflow)
}

/// A decimal number at `pos`: integer digits, an optional fraction, an
/// optional exponent and an optional suffix.
#[verifier::opaque]
pub open spec fn decimal_number(cs: Seq<char>, o: LuaSyntaxOptions, s: ScanState) -> ScanState {
    let m = mantissa(cs, s.pos, 10);
    let e = exponent_part(cs, m.0, 'e');
    let is_float = m.3 || e.1;
    let (p4, suf) = suffix(cs, e.0);
    decimal_reports(cs, o, at_pos(s, p4), is_float, suf, m.4 || e.4, m.1, m.2, e.1, e.2, e.3)
}

/// The reports of a hexadecimal number once scanned, in order: a 64-bit
/// suffix on a float, underscores anywhere in the literal, suffixes, and the
/// range checks (below 2^64 and at least one digit for `ull`, `ll` and
/// integers; the value as a double for complex numbers and floats; floats are
/// reported where not accepted).
#[verifier::opaque]
pub open spec fn hex_reports(
    cs: Seq<char>,
    o: LuaSyntaxOptions,
    s: ScanState,
    is_float: bool,
    suf: nat,
    has_us: bool,
    idig: Seq<u8>,
    fdig: Seq<u8>,
    has_p: bool,
    neg: bool,
    edig: Seq<u8>,
) -> ScanState {
    let ls = s.lexeme_start;
    let ul = suf == 1 && !is_float;
    let sl = suf == 2 && !is_float;
    let cx = suf == 3;
    let digits = idig.len() + fdig.len();
    let big = digits == 0 || digits_value(idig, 16) >= two_to_64();
    let hov = hex_overflows(idig + fdig, fdig.len(), has_p, neg, edig);
    let as_int = !ul && !sl && !cx && !is_float && o.hex_integer_format != IntegerFormats::NotSupported;
    let too_large = ((ul || sl) && big) || (as_int && big);
    let hf_gate = !ul && !sl && !cx && is_float && !o.accept_hex_float_literals;
    let overflow = !ul && !sl && ((cx && digits > 0 && hov) || (!cx && is_float && hov));
    let s2 = err_if(cs, s, (suf == 1 || suf == 2) && is_float, ls, ErrorCode::ErrLuajitSuffixInFloat);
    let s3 = err_if(
        cs,
        s2,
        !o.accept_underscore_in_number_literals && has_us,
        ls,
        ErrorCode::ErrUnderscoreInNumericLiteralNotSupportedInVersion,
    );
    let s4 = err_if(
        cs,
        s3,
        (ul || sl || cx) && !o.accept_lua_jit_number_suffixes,
        ls,
        ErrorCode::ErrNumberSuffixNotSupportedInVersion,
    );
    let s5 = err_if(cs, s4, too_large, ls, ErrorCode::ErrNumericLiteralTooLarge);
    let s6 = err_if(cs, s5, hf_gate, ls, ErrorCode::ErrHexFloatLiteralNotSupportedInVersion);
    err_if(cs, s6, overflow, ls, ErrorCode::ErrDoubleOverflow)
}

/// A hexadecimal number after its prefix: integer digits, an optional
/// fraction, an optional binary exponent and an optional suffix.
#[verifier::opaque]
pub open spec fn hex_number(cs: Seq<char>, o: LuaSyntaxOptions, s: ScanState) -> ScanState {
    let m = mantissa(cs, s.pos, 16);
    let e = exponent_part(cs, m.0, 'p');
    let is_float = m.3 || e.1;
    let (p4, suf) = suffix(cs, e.0);
    let has_us = cs.subrange(s.lexeme_start, e.0).contains('_');
    hex_reports(cs, o, at_pos(s, p4), is_float, suf, has_us, m.1, m.2, e.1, e.2, e.3)
}

/// A binary number after its prefix, in order: the literal where binary
/// numbers are not accepted, underscores, suffixes, no digit, and the range
/// (below 2^64 with `ull`, below 2^63 otherwise).
#[verifier::opaque]
pub open spec fn binary_number(cs: Seq<char>, o: LuaSyntaxOptions, s: ScanState) -> ScanState {
    let ls = s.lexeme_start;
    let (p1, ds, us) = digit_run(cs, s.pos, 2);
    let (p2, suf) = suffix(cs, p1);
    let v = digits_value(ds, 2);
    let s1 = at_pos(s, p2);
    let s2 = err_if(cs, s1, !o.accept_binary_numbers, ls, ErrorCode::ErrBinaryNumericLiteralNotSupportedInVersion);
    let s3 = err_if(
        cs,
        s2,
        us && !o.accept_underscore_in_number_literals,
        ls,
        ErrorCode::ErrUnderscoreInNumericLiteralNotSupportedInVersion,
    );
    let s4 = err_if(cs, s3, suf != 0 && !o.accept_lua_jit_number_suffixes, ls, ErrorCode::ErrNumberSuffixNotSupportedInVersion);
    let s5 = err_if(cs, s4, ds.len() < 1, ls, ErrorCode::ErrInvalidNumber);
    err_if(
        cs,
        s5,
        v >= two_to_64() || (v >= two_to_63() && suf != 1),
        ls,
        ErrorCode::ErrNumericLiteralTooLarge,
    )
}

/// An octal number after its prefix, in order: the literal where octal
/// numbers are not accepted, underscores, no digit, and a value of 2^63 or more.
#[verifier::opaque]
pub open spec fn octal_number(cs: Seq<char>, o: LuaSyntaxOptions, s: ScanState) -> ScanState {
    let ls = s.lexeme_start;
    let (p1, ds, us) = digit_run(cs, s.pos, 8);
    let s1 = at_pos(s, p1);
    let s2 = err_if(cs, s1, !o.accept_octal_numbers, ls, ErrorCode::ErrOctalNumericLiteralNotSupportedInVersion);
    let s3 = err_if(
        cs,
        s2,
        us && !o.accept_underscore_in_number_literals,
        ls,
        ErrorCode::ErrUnderscoreInNumericLiteralNotSupportedInVersion,
    );
    let s4 = err_if(cs, s3, ds.len() < 1, ls, ErrorCode::ErrInvalidNumber);
    err_if(cs, s4, digits_value(ds, 8) >= two_to_63(), ls, ErrorCode::ErrNumericLiteralTooLarge)
}

/// A number literal at `pos`. After a leading `0`, underscores then `x`, `b`
/// or `o` (either case) select the base; those underscores are reported where
/// not accepted.
#[verifier::opaque]
pub open spec fn number(cs: Seq<char>, o: LuaSyntaxOptions, s: ScanState) -> ScanState {
    let start = s.pos;
    let s0 = start_lexeme(s);
    let q = underscores_end(cs, start + 1);
    let pref_us = !o.accept_underscore_in_number_literals && q != start + 1;
    let s1 = if cs[start] == '0' && ci_at(cs, q, 'x') {
        hex_number(cs, o, err_if(cs, at_pos(s0, q + 1), pref_us, start, ErrorCode::ErrUnderscoreInNumericLiteralNotSupportedInVersion))
    } else if cs[start] == '0' && ci_at(cs, q, 'b') {
        binary_number(cs, o, err_if(cs, at_pos(s0, q + 1), pref_us, start, ErrorCode::ErrUnderscoreInNumericLiteralNotSupportedInVersion))
    } else if cs[start] == '0' && ci_at(cs, q, 'o') {
        octal_number(cs, o, err_if(cs, at_pos(s0, q + 1), pref_us, start, ErrorCode::ErrUnderscoreInNumericLiteralNotSupportedInVersion))
    } else {
        decimal_number(cs, o, s0)
    };
    with_only_sb(s1, true)
}

pub proof fn lemma_digit_run(cs: Seq<char>, p: int, base: nat)
    requires
        0 <= p <= cs.len(),
    ensures
        p <= digit_run(cs, p, base).0 <= cs.len(),
        digit_run(cs, p, base).1.len() <= digit_run(cs, p, base).0 - p,
        base == 2 || base == 8 || base == 10 || base == 16 ==> digits_below(digit_run(cs, p, base).1, base),
    decreases cs.len() - p,
{
    if 0 <= p < cs.len() && (is_base_digit(cs[p], base) || cs[p] == '_') {
        lemma_digit_run(cs, p + 1, base);
        let r = digit_run(cs, p + 1, base);
        if is_base_digit(cs[p], base) {
            let d = hex_val(cs[p]) as u8;
            let ds = seq![d] + r.1;
            if base == 2 || base == 8 || base == 10 || base == 16 {
                assert((hex_val(cs[p]) as nat) < base);
                assert(digits_below(ds, base)) by {
                    assert forall|i: int| 0 <= i < ds.len() implies (ds[i] as nat) < base by {
                        if i > 0 {
                            assert(ds[i] == r.1[i - 1]);
                        }
                    }
                }
            }
        }
    }
}

/// A digit run with its value kept below `limit` exactly: `over` says whether
/// the value reached `limit`, and `num` is the value otherwise.
pub open spec fn tracks(num: u64, over: bool, v: nat, limit: nat) -> bool {
    &&& over <==> v >= limit
    &&& !over ==> num == v
}

impl Scanner {
    fn is_digit_of(c: char, base: u8) -> (r: bool)
        requires
            base == 2 || base == 8 || base == 10 || base == 16,
        ensures
            r == is_base_digit(c, base as nat),
    {
        let u = c as u32;
        if base == 2 {
            c == '0' || c == '1'
        } else if base == 8 {
            48 <= u && u <= 55
        } else if base == 10 {
            is_decimal(c)
        } else {
            is_hexadecimal(c)
        }
    }

    /// Scans a run of digits of `base` and underscores.
    fn scan_digits(&mut self, base: u8, limit: u128) -> (r: (Vec<u8>, bool, u64, bool))
        requires
            old(self).wf(),
            base == 2 || base == 8 || base == 10 || base == 16,
            limit == two_to_63() || limit == two_to_64(),
        ensures
            final(self).wf(),
            same_input(*final(self), *old(self)),
            (final(self).pos as int, r.0@, r.1) == digit_run(old(self).chars@, old(self).pos as int, base as nat),
            final(self).st() == at_pos(old(self).st(), final(self).pos as int),
            final(self).pos >= old(self).pos,
            r.0@.len() <= final(self).pos - old(self).pos,
            digits_below(r.0@, base as nat),
            tracks(r.2, r.3, digits_value(r.0@, base as nat), limit as nat),
    {
        let ghost cs = self.chars@;
        let ghost p0 = self.pos as int;
        let mut digits: Vec<u8> = Vec::new();
        let mut us = false;
        let mut num: u64 = 0;
        let mut over = false;
        proof {
            lemma_digit_run(cs, p0, base as nat);
        }
        while self.pos < self.chars.len() && (Self::is_digit_of(self.chars[self.pos], base) || self.chars[self.pos] == '_')
            invariant
                self.wf(),
                same_input(*self, *old(self)),
                cs == self.chars@,
                p0 == old(self).pos,
                self.pos >= p0,
                base == 2 || base == 8 || base == 10 || base == 16,
                limit == two_to_63() || limit == two_to_64(),
                self.st() == at_pos(old(self).st(), self.pos as int),
                ({
                    let dr = digit_run(cs, self.pos as int, base as nat);
                    digit_run(cs, p0, base as nat) == (dr.0, digits@ + dr.1, us || dr.2)
                }),
                digits@.len() <= self.pos - p0,
                digits_below(digits@, base as nat),
                tracks(num, over, digits_value(digits@, base as nat), limit as nat),
            decreases self.chars@.len() - self.pos,
        {
            let c = self.chars[self.pos];
            let ghost dr1 = digit_run(cs, self.pos + 1, base as nat);
            if Self::is_digit_of(c, base) {
                let d = hexadecimal_value(c);
                let ghost v = digits_value(digits@, base as nat);
                let ghost old_digits = digits@;
                proof {
                    assert(d < base as u64) by {
                        if base == 2 {
                        } else if base == 8 {
                        } else if base == 10 {
                        } else {
                        }
                    }
                }
                if !over {
                    let t: u128 = num as u128 * base as u128 + d as u128;
                    if t >= limit {
                        over = true;
                    } else {
                        num = t as u64;
                    }
                }
                digits.push(d as u8);
                proof {
                    assert(digits@.drop_last() =~= old_digits);
                    assert(digits_value(digits@, base as nat) == v * base as nat + d as nat);
                    assert(v * (base as nat) + (d as nat) >= v) by (nonlinear_arith)
                        requires
                            base >= 2,
                    ;
                    assert(old_digits + (seq![d as u8] + dr1.1) =~= digits@ + dr1.1);
                    assert(digits_below(digits@, base as nat)) by {
                        assert forall|i: int| 0 <= i < digits@.len() implies (digits@[i] as nat) < base by {
                            if i < old_digits.len() {
                                assert(digits@[i] == old_digits[i]);
                            }
                        }
                    }
                }
            } else {
                us = true;
            }
            self.pos = self.pos + 1;
        }
        proof {
            assert(digits@ + seq![] =~= digits@);
        }
        (digits, us, num, over)
    }

    /// Moves past underscores.
    fn skip_underscores(&mut self)
        requires
            old(self).wf(),
        ensures
            final(self).wf(),
            same_input(*final(self), *old(self)),
            final(self).st() == at_pos(old(self).st(), underscores_end(old(self).chars@, old(self).pos as int)),
            final(self).pos >= old(self).pos,
    {
        while self.pos < self.chars.len() && self.chars[self.pos] == '_'
            invariant
                self.wf(),
                same_input(*self, *old(self)),
                self.pos >= old(self).pos,
                self.st() == at_pos(old(self).st(), self.pos as int),
                underscores_end(self.chars@, self.pos as int) == underscores_end(old(self).chars@, old(self).pos as int),
            decreases self.chars@.len() - self.pos,
        {
            self.pos = self.pos + 1;
        }
    }

    fn ci_at_exec(&self, p: usize, lower: char) -> (r: bool)
        requires
            self.wf(),
            97 <= (lower as u32) <= 122,
        ensures
            r == ci_at(self.chars@, p as int, lower),
    {
        if p < self.chars.len() {
            let c = self.chars[p];
            c == lower || (c as u32) == (lower as u32) - 32
        } else {
            false
        }
    }

    /// Scans a suffix.
    fn scan_suffix(&mut self) -> (k: u8)
        requires
            old(self).wf(),
        ensures
            final(self).wf(),
            same_input(*final(self), *old(self)),
            (final(self).pos as int, k as nat) == suffix(old(self).chars@, old(self).pos as int),
            final(self).st() == at_pos(old(self).st(), final(self).pos as int),
            final(self).pos >= old(self).pos,
            k <= 3,
    {
        let p = self.pos;
        if self.ci_at_exec(p, 'u') && p + 1 < self.chars.len() && self.ci_at_exec(p + 1, 'l') && p + 2 < self.chars.len() && self.ci_at_exec(p + 2, 'l') {
            self.pos = p + 3;
            1
        } else if self.ci_at_exec(p, 'l') && p + 1 < self.chars.len() && self.ci_at_exec(p + 1, 'l') {
            self.pos = p + 2;
            2
        } else if self.ci_at_exec(p, 'i') {
            self.pos = p + 1;
            3
        } else {
            0
        }
    }

    /// Scans an exponent part with the given marker.
    #[verifier::rlimit(80)]
    fn scan_exponent(&mut self, marker: char) -> (r: (bool, bool, Vec<u8>, bool))
        requires
            old(self).wf(),
            marker == 'e' || marker == 'p',
        ensures
            final(self).wf(),
            same_input(*final(self), *old(self)),
            exponent_part(old(self).chars@, old(self).pos as int, marker).0 == final(self).pos as int,
            exponent_part(old(self).chars@, old(self).pos as int, marker).1 == r.0,
            exponent_part(old(self).chars@, old(self).pos as int, marker).2 == r.1,
            exponent_part(old(self).chars@, old(self).pos as int, marker).3 == r.2@,
            exponent_part(old(self).chars@, old(self).pos as int, marker).4 == r.3,
            final(self).st() == at_pos(old(self).st(), final(self).pos as int),
            final(self).pos >= old(self).pos,
            digits_below(r.2@, 10),
    {
        let ghost cs = self.chars@;
        let ghost p = self.pos as int;
        if !self.ci_at_exec(self.pos, marker) {
            proof {
                reveal(exponent_part);
            }
            return (false, false, Vec::new(), false);
        }
        self.pos = self.pos + 1;
        let sign = self.peek();
        let neg = sign == Some('-');
        if sign == Some('+') || sign == Some('-') {
            self.pos = self.pos + 1;
        }
        let ghost q2 = self.pos as int;
        let (d, us, _, _) = self.scan_digits(10, 0x1_0000_0000_0000_0000);
        proof {
            assert(q2 == if at(cs, p + 1) == Some('+') || at(cs, p + 1) == Some('-') {
                p + 2
            } else {
                p + 1
            });
            reveal(exponent_part);
        }
        (true, neg, d, us)
    }

    /// Whether an underscore is among the characters from `from` to `to`.
    fn has_underscore(&self, from: usize, to: usize) -> (r: bool)
        requires
            self.wf(),
            from <= to <= self.chars@.len(),
        ensures
            r == self.chars@.subrange(from as int, to as int).contains('_'),
    {
        let mut i = from;
        while i < to
            invariant
                from <= i <= to <= self.chars@.len(),
                forall|k: int| from <= k < i ==> self.chars@[k] != '_',
            decreases to - i,
        {
            if self.chars[i] == '_' {
                proof {
                    assert(self.chars@.subrange(from as int, to as int)[i - from] == '_');
                }
                return true;
            }
            i = i + 1;
        }
        proof {
            let sub = self.chars@.subrange(from as int, to as int);
            assert forall|k: int| 0 <= k < sub.len() implies sub[k] != '_' by {
                assert(sub[k] == self.chars@[from + k]);
            }
        }
        false
    }

    /// Scans digits, an optional point and fraction digits.
    fn scan_mantissa(&mut self, base: u8) -> (r: (Vec<u8>, Vec<u8>, bool, bool, u64, bool))
        requires
            old(self).wf(),
            base == 10 || base == 16,
        ensures
            final(self).wf(),
            same_input(*final(self), *old(self)),
            mantissa(old(self).chars@, old(self).pos as int, base as nat).0 == final(self).pos as int,
            mantissa(old(self).chars@, old(self).pos as int, base as nat).1 == r.0@,
            mantissa(old(self).chars@, old(self).pos as int, base as nat).2 == r.1@,
            mantissa(old(self).chars@, old(self).pos as int, base as nat).3 == r.2,
            mantissa(old(self).chars@, old(self).pos as int, base as nat).4 == r.3,
            final(self).st() == at_pos(old(self).st(), final(self).pos as int),
            final(self).pos >= old(self).pos,
            r.0@.len() + r.1@.len() <= final(self).pos - old(self).pos,
            digits_below(r.0@, base as nat),
            digits_below(r.1@, base as nat),
            tracks(r.4, r.5, digits_value(r.0@, base as nat), two_to_64()),
            (old(self).pos < old(self).chars@.len() && is_base_digit(old(self).chars@[old(self).pos as int], base as nat)) ==> final(self).pos > old(self).pos,
    {
        let ghost cs = self.chars@;
        let ghost p0 = self.pos as int;
        proof {
            if p0 < cs.len() {
                lemma_digit_run(cs, p0 + 1, base as nat);
            }
        }
        let (idig, us1, num, over) = self.scan_digits(base, 0x1_0000_0000_0000_0000);
        let has_dot = self.peek() == Some('.');
        let mut fdig: Vec<u8> = Vec::new();
        let mut us2 = false;
        if has_dot {
            self.pos = self.pos + 1;
            let (f, u, _, _) = self.scan_digits(base, 0x1_0000_0000_0000_0000);
            fdig = f;
            us2 = u;
        }
        proof {
            reveal(mantissa);
        }
        (idig, fdig, has_dot, us1 || us2, num, over)
    }

    fn report_decimal(
        &mut self,
        is_float: bool,
        suf: u8,
        has_us: bool,
        idig: &Vec<u8>,
        fdig: &Vec<u8>,
        has_e: bool,
        neg: bool,
        edig: &Vec<u8>,
        num: u64,
        over: bool,
    )
        requires
            old(self).wf(),
            digits_below(idig@, 10),
            digits_below(fdig@, 10),
            digits_below(edig@, 10),
            idig@.len() + fdig@.len() <= old(self).chars@.len(),
            tracks(num, over, digits_value(idig@, 10), two_to_64()),
        ensures
            final(self).wf(),
            same_input(*final(self), *old(self)),
            final(self).st() == decimal_reports(
                old(self).chars@,
                old(self).options,
                old(self).st(),
                is_float,
                suf as nat,
                has_us,
                idig@,
                fdig@,
                has_e,
                neg,
                edig@,
            ),
            final(self).pos == old(self).pos,
    {
        let ls = self.lexeme_start;
        let ul = suf == 1 && !is_float;
        let sl = suf == 2 && !is_float;
        let cx = suf == 3;
        let as_double = cx || is_float || self.options.decimal_integer_format == IntegerFormats::NotSupported;
        let big63 = over || num >= 0x8000_0000_0000_0000;
        let too_large = if ul {
            over
        } else if sl {
            big63
        } else {
            !as_double && big63
        };
        let overflow = if !ul && !sl && as_double {
            let m = concat_digits(idig, fdig);
            decimal_overflows_exec(&m, fdig.len(), has_e, neg, edig)
        } else {
            false
        };
        let accept_us = self.options.accept_underscore_in_number_literals;
        let accept_suffixes = self.options.accept_lua_jit_number_suffixes;
        self.error_from_if((suf == 1 || suf == 2) && is_float, ls, ErrorCode::ErrLuajitSuffixInFloat);
        self.error_from_if(
            has_us && !accept_us,
            ls,
            ErrorCode::ErrUnderscoreInNumericLiteralNotSupportedInVersion,
        );
        self.error_from_if((ul || sl || cx) && !accept_suffixes, ls, ErrorCode::ErrNumberSuffixNotSupportedInVersion);
        self.error_from_if(too_large, ls, ErrorCode::ErrNumericLiteralTooLarge);
        self.error_from_if(overflow, ls, ErrorCode::ErrDoubleOverflow);
        proof {
            reveal(decimal_reports);
        }
    }

    /// Scans a decimal number; its first digit is at the current position.
    fn scan_decimal_number(&mut self)
        requires
            old(self).wf(),
            old(self).pos < old(self).chars@.len(),
            is_dec(old(self).chars@[old(self).pos as int]),
        ensures
            final(self).wf(),
            same_input(*final(self), *old(self)),
            final(self).st() == decimal_number(old(self).chars@, old(self).options, old(self).st()),
            final(self).pos > old(self).pos,
    {
        let (idig, fdig, has_dot, us12, num, over) = self.scan_mantissa(10);
        let (has_e, neg, edig, us3) = self.scan_exponent('e');
        let is_float = has_dot || has_e;
        let suf = self.scan_suffix();
        self.report_decimal(is_float, suf, us12 || us3, &idig, &fdig, has_e, neg, &edig, num, over);
        proof {
            reveal(decimal_number);
        }
    }

    fn report_hex(
        &mut self,
        is_float: bool,
        suf: u8,
        has_us: bool,
        idig: &Vec<u8>,
        fdig: &Vec<u8>,
        has_p: bool,
        neg: bool,
        edig: &Vec<u8>,
        over: bool,
    )
        requires
            old(self).wf(),
            digits_below(idig@, 16),
            digits_below(fdig@, 16),
            digits_below(edig@, 10),
            idig@.len() + fdig@.len() <= old(self).chars@.len(),
            over <==> digits_value(idig@, 16) >= two_to_64(),
        ensures
            final(self).wf(),
            same_input(*final(self), *old(self)),
            final(self).st() == hex_reports(
                old(self).chars@,
                old(self).options,
                old(self).st(),
                is_float,
                suf as nat,
                has_us,
                idig@,
                fdig@,
                has_p,
                neg,
                edig@,
            ),
            final(self).pos == old(self).pos,
    {
        let ls = self.lexeme_start;
        let ul = suf == 1 && !is_float;
        let sl = suf == 2 && !is_float;
        let cx = suf == 3;
        let digits = idig.len() + fdig.len();
        let big = digits == 0 || over;
        let m = concat_digits(idig, fdig);
        let hov = hex_overflows_exec(&m, fdig.len(), has_p, neg, edig);
        let as_int = !ul && !sl && !cx && !is_float && self.options.hex_integer_format != IntegerFormats::NotSupported;
        let too_large = ((ul || sl) && big) || (as_int && big);
        let hf_gate = !ul && !sl && !cx && is_float && !self.options.accept_hex_float_literals;
        let overflow = !ul && !sl && ((cx && digits > 0 && hov) || (!cx && is_float && hov));
        let accept_us = self.options.accept_underscore_in_number_literals;
        let accept_suffixes = self.options.accept_lua_jit_number_suffixes;
        self.error_from_if((suf == 1 || suf == 2) && is_float, ls, ErrorCode::ErrLuajitSuffixInFloat);
        self.error_from_if(
            !accept_us && has_us,
            ls,
            ErrorCode::ErrUnderscoreInNumericLiteralNotSupportedInVersion,
        );
        self.error_from_if((ul || sl || cx) && !accept_suffixes, ls, ErrorCode::ErrNumberSuffixNotSupportedInVersion);
        self.error_from_if(too_large, ls, ErrorCode::ErrNumericLiteralTooLarge);
        self.error_from_if(hf_gate, ls, ErrorCode::ErrHexFloatLiteralNotSupportedInVersion);
        self.error_from_if(overflow, ls, ErrorCode::ErrDoubleOverflow);
        proof {
            reveal(hex_reports);
        }
    }

    /// Scans a hexadecimal number after its prefix.
    fn scan_hex_number(&mut self)
        requires
            old(self).wf(),
        ensures
            final(self).wf(),
            same_input(*final(self), *old(self)),
            final(self).st() == hex_number(old(self).chars@, old(self).options, old(self).st()),
            final(self).pos >= old(self).pos,
    {
        let (idig, fdig, has_dot, _, _, over) = self.scan_mantissa(16);
        let (has_p, neg, edig, _) = self.scan_exponent('p');
        let is_float = has_dot || has_p;
        let p3 = self.pos;
        let has_us = self.has_underscore(self.lexeme_start, p3);
        let suf = self.scan_suffix();
        self.report_hex(is_float, suf, has_us, &idig, &fdig, has_p, neg, &edig, over);
        proof {
            reveal(hex_number);
        }
    }

    /// Scans a binary number after its prefix.
    fn scan_binary_number(&mut self)
        requires
            old(self).wf(),
        ensures
            final(self).wf(),
            same_input(*final(self), *old(self)),
            final(self).st() == binary_number(old(self).chars@, old(self).options, old(self).st()),
            final(self).pos >= old(self).pos,
    {
        let ls = self.lexeme_start;
        let (ds, us, num, over) = self.scan_digits(2, 0x1_0000_0000_0000_0000);
        let suf = self.scan_suffix();
        let big = over || (num >= 0x8000_0000_0000_0000 && suf != 1);
        let accept_binary = self.options.accept_binary_numbers;
        let accept_us = self.options.accept_underscore_in_number_literals;
        let accept_suffixes = self.options.accept_lua_jit_number_suffixes;
        self.error_from_if(!accept_binary, ls, ErrorCode::ErrBinaryNumericLiteralNotSupportedInVersion);
        self.error_from_if(us && !accept_us, ls, ErrorCode::ErrUnderscoreInNumericLiteralNotSupportedInVersion);
        self.error_from_if(suf != 0 && !accept_suffixes, ls, ErrorCode::ErrNumberSuffixNotSupportedInVersion);
        self.error_from_if(ds.len() < 1, ls, ErrorCode::ErrInvalidNumber);
        self.error_from_if(big, ls, ErrorCode::ErrNumericLiteralTooLarge);
        proof {
            reveal(binary_number);
        }
    }

    /// Scans an octal number after its prefix.
    fn scan_octal_number(&mut self)
        requires
            old(self).wf(),
        ensures
            final(self).wf(),
            same_input(*final(self), *old(self)),
            final(self).st() == octal_number(old(self).chars@, old(self).options, old(self).st()),
            final(self).pos >= old(self).pos,
    {
        let ls = self.lexeme_start;
        let (ds, us, _, over) = self.scan_digits(8, 0x8000_0000_0000_0000);
        let accept_octal = self.options.accept_octal_numbers;
        let accept_us = self.options.accept_underscore_in_number_literals;
        self.error_from_if(!accept_octal, ls, ErrorCode::ErrOctalNumericLiteralNotSupportedInVersion);
        self.error_from_if(us && !accept_us, ls, ErrorCode::ErrUnderscoreInNumericLiteralNotSupportedInVersion);
        self.error_from_if(ds.len() < 1, ls, ErrorCode::ErrInvalidNumber);
        self.error_from_if(over, ls, ErrorCode::ErrNumericLiteralTooLarge);
        proof {
            reveal(octal_number);
        }
    }

    /// Scans a number literal; its first digit is at the current position.
    pub fn scan_number(&mut self)
        requires
            old(self).wf(),
            old(self).pos < old(self).chars@.len(),
            is_dec(old(self).chars@[old(self).pos as int]),
        ensures
            final(self).wf(),
            same_input(*final(self), *old(self)),
            final(self).st() == number(old(self).chars@, old(self).options, old(self).st()),
            final(self).pos > old(self).pos,
    {
        let start = self.pos;
        self.lexeme_start = start;
        let first = self.chars[start];
        self.pos = start + 1;
        self.skip_underscores();
        let q = self.pos;
        self.pos = start;
        let pref_us = !self.options.accept_underscore_in_number_literals && q != start + 1;
        let code = ErrorCode::ErrUnderscoreInNumericLiteralNotSupportedInVersion;
        if first == '0' && self.ci_at_exec(q, 'x') {
            self.pos = q + 1;
            self.error_from_if(pref_us, start, code);
            self.scan_hex_number();
        } else if first == '0' && self.ci_at_exec(q, 'b') {
            self.pos = q + 1;
            self.error_from_if(pref_us, start, code);
            self.scan_binary_number();
        } else if first == '0' && self.ci_at_exec(q, 'o') {
            self.pos = q + 1;
            self.error_from_if(pref_us, start, code);
            self.scan_octal_number();
        } else {
            self.scan_decimal_number();
        }
        self.only_sb = true;
        proof {
            reveal(number);
        }
    }
}

/// The digits of `a` followed by those of `b`.
fn concat_digits(a: &Vec<u8>, b: &Vec<u8>) -> (r: Vec<u8>)
    ensures
        r@ == a@ + b@,
{
    let mut r: Vec<u8> = Vec::new();
    let mut i: usize = 0;
    while i < a.len()
        invariant
            i <= a@.len(),
            r@ == a@.take(i as int),
        decreases a@.len() - i,
    {
        r.push(a[i]);
        i = i + 1;
        proof {
            assert(r@ =~= a@.take(i as int));
        }
    }
    let mut j: usize = 0;
    while j < b.len()
        invariant
            j <= b@.len(),
            r@ == a@ + b@.take(j as int),
        decreases b@.len() - j,
    {
        r.push(b[j]);
        j = j + 1;
        proof {
            assert(r@ =~= a@ + b@.take(j as int));
        }
    }
    proof {
        assert(a@.take(a@.len() as int) =~= a@);
        assert(b@.take(b@.len() as int) =~= b@);
    }
    r
}

} // verus!
