//! Version gates on number literals, stated over the source text and the
//! options: what the lexer reports when it meets a literal that the options
//! do not accept.
use vstd::prelude::*;

use crate::errors::errorcode::ErrorCode;
use crate::errors::lexerdiagnostics::digitvalue::digits_value;
use crate::errors::lexerdiagnostics::lexer::{
    initial_scan, lex_from, lex_step, lexer_diagnostics_spec, starts_trivia, token_step,
};
use crate::errors::lexerdiagnostics::numbers::{
    binary_number, ci_at, digit_run, lemma_digit_run, number, suffix, two_to_63, two_to_64,
    underscores_end,
};
use crate::errors::lexerdiagnostics::scanstate::{
    at_pos, boff, diag, err_if, start_lexeme, utf8_len, with_only_sb, ScanState,
};
use crate::luasyntaxoptions::LuaSyntaxOptions;

verus! {

/// A binary digit or an underscore.
pub open spec fn is_binary_char(c: char) -> bool {
    c == '0' || c == '1' || c == '_'
}

/// A letter of a number suffix (`ull`, `ll`, `i`), in either case (the
/// upper-case letter is 32 below the lower-case one).
pub open spec fn is_suffix_letter(c: char) -> bool {
    ||| c == 'u' || (c as u32) + 32 == ('u' as u32)
    ||| c == 'l' || (c as u32) + 32 == ('l' as u32)
    ||| c == 'i' || (c as u32) + 32 == ('i' as u32)
}

/// The run of binary digits and underscores at `p` ends at the first other
/// character, or at the end.
proof fn lemma_binary_run(cs: Seq<char>, p: int)
    requires
        0 <= p <= cs.len(),
    ensures
        p <= digit_run(cs, p, 2).0 <= cs.len(),
        forall|k: int| p <= k < digit_run(cs, p, 2).0 ==> is_binary_char(#[trigger] cs[k]),
        digit_run(cs, p, 2).0 < cs.len() ==> !is_binary_char(cs[digit_run(cs, p, 2).0]),
    decreases cs.len() - p,
{
    if p < cs.len() && is_binary_char(cs[p]) {
        lemma_binary_run(cs, p + 1);
    }
}

/// The suffix at `p` is made of suffix letters.
proof fn lemma_suffix_letters(cs: Seq<char>, p: int)
    requires
        0 <= p <= cs.len(),
    ensures
        p <= suffix(cs, p).0 <= cs.len(),
        forall|k: int| p <= k < suffix(cs, p).0 ==> is_suffix_letter(#[trigger] cs[k]),
        p == cs.len() ==> suffix(cs, p) == (p, 0nat),
{
}

/// A `0b` or `0B` literal where binary numbers are not accepted: the scan
/// ends after the digits and the suffix, keeps the diagnostics before it, and
/// reports the literal first, over its bytes.
proof fn lemma_binary_literal_reported(cs: Seq<char>, o: LuaSyntaxOptions, s: ScanState)
    requires
        0 <= s.pos,
        s.pos + 1 < cs.len(),
        cs[s.pos] == '0',
        cs[s.pos + 1] == 'b' || cs[s.pos + 1] == 'B',
        !o.accept_binary_numbers,
    ensures
        ({
            let r = number(cs, o, s);
            &&& r.pos == suffix(cs, digit_run(cs, s.pos + 2, 2).0).0
            &&& s.pos + 2 <= r.pos <= cs.len()
            &&& r.diags.len() > s.diags.len()
            &&& r.diags.subrange(0, s.diags.len() as int) == s.diags
            &&& r.diags[s.diags.len() as int] == diag(
                ErrorCode::ErrBinaryNumericLiteralNotSupportedInVersion,
                boff(cs, s.pos) as int,
                boff(cs, r.pos) - boff(cs, s.pos),
                seq![],
            )
        }),
{
    reveal(number);
    reveal(binary_number);
    reveal(err_if);
    let start = s.pos;
    assert(underscores_end(cs, start + 1) == start + 1);
    assert(!ci_at(cs, start + 1, 'x'));
    assert(ci_at(cs, start + 1, 'b'));
    lemma_digit_run(cs, start + 2, 2);
    let b = at_pos(start_lexeme(s), start + 2);
    let (p1, ds, us) = digit_run(cs, start + 2, 2);
    let (p2, suf) = suffix(cs, p1);
    let v = digits_value(ds, 2);
    let s1 = at_pos(b, p2);
    let d = diag(
        ErrorCode::ErrBinaryNumericLiteralNotSupportedInVersion,
        boff(cs, start) as int,
        boff(cs, p2) - boff(cs, start),
        seq![],
    );
    let s2 = err_if(cs, s1, true, start, ErrorCode::ErrBinaryNumericLiteralNotSupportedInVersion);
    assert(s2.diags == s.diags.push(d));
    let s3 = err_if(
        cs,
        s2,
        us && !o.accept_underscore_in_number_literals,
        start,
        ErrorCode::ErrUnderscoreInNumericLiteralNotSupportedInVersion,
    );
    let s4 = err_if(cs, s3, suf != 0 && !o.accept_lua_jit_number_suffixes, start, ErrorCode::ErrNumberSuffixNotSupportedInVersion);
    let s5 = err_if(cs, s4, ds.len() < 1, start, ErrorCode::ErrInvalidNumber);
    let s6 = err_if(
        cs,
        s5,
        v >= two_to_64() || (v >= two_to_63() && suf != 1),
        start,
        ErrorCode::ErrNumericLiteralTooLarge,
    );
    assert(binary_number(cs, o, b) == s6);
    assert(number(cs, o, s) == with_only_sb(s6, true));
    let n = s.diags.len() as int;
    assert(s3.diags.len() > n && s3.diags.subrange(0, n) =~= s.diags && s3.diags[n] == d);
    assert(s4.diags.len() > n && s4.diags.subrange(0, n) =~= s.diags && s4.diags[n] == d);
    assert(s5.diags.len() > n && s5.diags.subrange(0, n) =~= s.diags && s5.diags[n] == d);
    assert(s6.diags.len() > n && s6.diags.subrange(0, n) =~= s.diags && s6.diags[n] == d);
}


/// Where binary numbers are not accepted, the lexer, on reaching a `0b` or
/// `0B` literal at the start of a token, keeps the diagnostics it had and
/// reports the literal as not supported in this version, over the bytes from
/// the `0` to the end of the literal (its binary digits, underscores and
/// suffix); the scan goes on after the literal.
pub proof fn law_binary_literal_is_reported_where_not_accepted(
    cs: Seq<char>,
    o: LuaSyntaxOptions,
    s: ScanState,
)
    requires
        0 <= s.pos,
        s.pos + 1 < cs.len(),
        cs[s.pos] == '0',
        cs[s.pos + 1] == 'b' || cs[s.pos + 1] == 'B',
        !o.accept_binary_numbers,
    ensures
        ({
            let r = lex_step(cs, o, s);
            &&& s.pos + 2 <= r.pos <= cs.len()
            &&& forall|k: int|
                s.pos + 2 <= k < r.pos ==> is_binary_char(#[trigger] cs[k]) || is_suffix_letter(cs[k])
            &&& r.diags.len() > s.diags.len()
            &&& r.diags.subrange(0, s.diags.len() as int) == s.diags
            &&& r.diags[s.diags.len() as int] == diag(
                ErrorCode::ErrBinaryNumericLiteralNotSupportedInVersion,
                boff(cs, s.pos) as int,
                boff(cs, r.pos) - boff(cs, s.pos),
                seq![],
            )
        }),
{
    reveal(lex_step);
    reveal(starts_trivia);
    reveal(token_step);
    lemma_binary_literal_reported(cs, o, s);
    lemma_binary_run(cs, s.pos + 2);
    lemma_suffix_letters(cs, digit_run(cs, s.pos + 2, 2).0);
    assert(lex_step(cs, o, s) == number(cs, o, s));
}

/// A source that is one binary literal (`0b` or `0B`, then binary digits and
/// underscores) has, where binary numbers are not accepted, as its first
/// lexer diagnostic the literal reported as not supported in this version,
/// over all of its bytes.
pub proof fn law_binary_source_is_reported_where_not_accepted(cs: Seq<char>, o: LuaSyntaxOptions)
    requires
        cs.len() >= 2,
        cs[0] == '0',
        cs[1] == 'b' || cs[1] == 'B',
        forall|k: int| 2 <= k < cs.len() ==> is_binary_char(#[trigger] cs[k]),
        !o.accept_binary_numbers,
    ensures
        lexer_diagnostics_spec(cs, o).len() >= 1,
        lexer_diagnostics_spec(cs, o)[0] == diag(
            ErrorCode::ErrBinaryNumericLiteralNotSupportedInVersion,
            0,
            utf8_len(cs) as int,
            seq![],
        ),
{
    let s0 = initial_scan();
    law_binary_literal_is_reported_where_not_accepted(cs, o, s0);
    lemma_binary_run(cs, 2);
    lemma_suffix_letters(cs, cs.len() as int);
    lemma_binary_literal_reported(cs, o, s0);
    reveal(lex_step);
    reveal(starts_trivia);
    reveal(token_step);
    let r = lex_step(cs, o, s0);
    assert(r == number(cs, o, s0));
    assert(digit_run(cs, 2, 2).0 == cs.len());
    assert(r.pos == cs.len());
    reveal_with_fuel(lex_from, 2);
    assert(lex_from(cs, o, s0) == r);
    assert(s0.diags.len() == 0);
    reveal(boff);
    assert(boff(cs, 0) == 0);
    assert(boff(cs, cs.len() as int) == utf8_len(cs));
    assert(r.diags[0] == diag(
        ErrorCode::ErrBinaryNumericLiteralNotSupportedInVersion,
        0,
        utf8_len(cs) as int,
        seq![],
    ));
}

} // verus!
