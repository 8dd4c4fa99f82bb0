//! The command line's text handling: argument lookup, settings values,
//! preset names, file-name patterns, durations and token-value dumps.
use vstd::prelude::*;

use crate::errors::lexerdiagnostics::scanstate::{hex_val, is_hex};
use crate::experimental::constantfolder::{
    all_hex, char_from_u32, close_index, hex_digits_value, is_scalar, lemma_close_index_at, lemma_close_index_len,
    parse_hex_range, parse_hex_u32,
};
use crate::luaparseoptions::LuaParseOptions;
use crate::luasyntaxoptions::LuaSyntaxOptions;
use vstd::utf8::encode_utf8;
use vstd::string::StringSliceAdditionalSpecFns;
use crate::text::{push_chars, push_str, push_zero_padded, str_chars, str_eq, string_from_chars, zero_padded};

verus! {

/// The syntax presets the command line names.
#[derive(Debug, Clone, Copy, PartialEq, Eq, Structural)]
pub enum LuaSyntaxOptionsPreset {
    Lua51,
    Lua52,
    Lua53,
    Lua54,
    LuaJit20,
    LuaJit21,
    GMod,
    Luau,
    FiveM,
    All,
    Alli,
}

/// The ASCII letters of `s` in lower case, every other character kept.
pub open spec fn ascii_lower(s: Seq<char>) -> Seq<char> {
    s.map_values(
        |c: char|
            if 65 <= (c as u32) <= 90 {
                ((c as u32) + 32) as char
            } else {
                c
            },
    )
}

/// `s` with its ASCII letters in lower case.
fn lower_ascii(s: &str) -> (r: Vec<char>)
    ensures
        r@ == ascii_lower(s@),
{
    let cs = str_chars(s);
    let mut out: Vec<char> = Vec::new();
    let mut i: usize = 0;
    while i < cs.len()
        invariant
            i <= cs@.len(),
            cs@ == s@,
            out@ == ascii_lower(cs@.take(i as int)),
        decreases cs@.len() - i,
    {
        let c = cs[i];
        let u = c as u32;
        if 65 <= u && u <= 90 {
            out.push(((u + 32) as u8) as char);
        } else {
            out.push(c);
        }
        i = i + 1;
        proof {
            assert(out@ =~= ascii_lower(cs@.take(i as int)));
        }
    }
    proof {
        assert(cs@.take(cs@.len() as int) =~= cs@);
    }
    out
}

/// Whether `a` spells `b`.
fn spells(a: &Vec<char>, b: &str) -> (r: bool)
    ensures
        r == (a@ == b@),
{
    let s = string_from_chars(a);
    str_eq(s.as_str(), b)
}

/// The message for a settings value that is not a boolean word.
pub open spec fn invalid_bool_message() -> Seq<char> {
    "Invalid boolean value '{0}' accepted values are: yes, true, on, no, false or off"@
}

/// Reads a settings value: `yes`, `true` or `on` is true and `no`, `false`
/// or `off` is false, in any letter case; anything else is an error.
pub fn parse_bool(input: &str) -> (r: Result<bool, String>)
    ensures
        ({
            let l = ascii_lower(input@);
            if l == "yes"@ || l == "true"@ || l == "on"@ {
                r == Ok::<bool, String>(true)
            } else if l == "no"@ || l == "false"@ || l == "off"@ {
                r == Ok::<bool, String>(false)
            } else {
                r matches Err(m) && m@ == invalid_bool_message()
            }
        }),
{
    let l = lower_ascii(input);
    if spells(&l, "yes") || spells(&l, "true") || spells(&l, "on") {
        Ok(true)
    } else if spells(&l, "no") || spells(&l, "false") || spells(&l, "off") {
        Ok(false)
    } else {
        Err("Invalid boolean value '{0}' accepted values are: yes, true, on, no, false or off".to_owned())
    }
}

/// The preset a name stands for, in any letter case.
pub open spec fn preset_named(l: Seq<char>) -> Option<LuaSyntaxOptionsPreset> {
    if l == "lua51"@ {
        Some(LuaSyntaxOptionsPreset::Lua51)
    } else if l == "lua52"@ {
        Some(LuaSyntaxOptionsPreset::Lua52)
    } else if l == "lua53"@ {
        Some(LuaSyntaxOptionsPreset::Lua53)
    } else if l == "lua54"@ {
        Some(LuaSyntaxOptionsPreset::Lua54)
    } else if l == "luajit20"@ || l == "luajit2.0"@ {
        Some(LuaSyntaxOptionsPreset::LuaJit20)
    } else if l == "luajit21"@ || l == "luajit2.1"@ {
        Some(LuaSyntaxOptionsPreset::LuaJit21)
    } else if l == "gmod"@ {
        Some(LuaSyntaxOptionsPreset::GMod)
    } else if l == "luau"@ {
        Some(LuaSyntaxOptionsPreset::Luau)
    } else if l == "fivem"@ {
        Some(LuaSyntaxOptionsPreset::FiveM)
    } else if l == "all"@ {
        Some(LuaSyntaxOptionsPreset::All)
    } else if l == "allwithintegers"@ || l == "alli"@ {
        Some(LuaSyntaxOptionsPreset::Alli)
    } else {
        None
    }
}

/// The preset named `name`, in any letter case, if there is one.
pub fn preset_from_name(name: &str) -> (r: Option<LuaSyntaxOptionsPreset>)
    ensures
        r == preset_named(ascii_lower(name@)),
{
    let l = lower_ascii(name);
    if spells(&l, "lua51") {
        Some(LuaSyntaxOptionsPreset::Lua51)
    } else if spells(&l, "lua52") {
        Some(LuaSyntaxOptionsPreset::Lua52)
    } else if spells(&l, "lua53") {
        Some(LuaSyntaxOptionsPreset::Lua53)
    } else if spells(&l, "lua54") {
        Some(LuaSyntaxOptionsPreset::Lua54)
    } else if spells(&l, "luajit20") || spells(&l, "luajit2.0") {
        Some(LuaSyntaxOptionsPreset::LuaJit20)
    } else if spells(&l, "luajit21") || spells(&l, "luajit2.1") {
        Some(LuaSyntaxOptionsPreset::LuaJit21)
    } else if spells(&l, "gmod") {
        Some(LuaSyntaxOptionsPreset::GMod)
    } else if spells(&l, "luau") {
        Some(LuaSyntaxOptionsPreset::Luau)
    } else if spells(&l, "fivem") {
        Some(LuaSyntaxOptionsPreset::FiveM)
    } else if spells(&l, "all") {
        Some(LuaSyntaxOptionsPreset::All)
    } else if spells(&l, "allwithintegers") || spells(&l, "alli") {
        Some(LuaSyntaxOptionsPreset::Alli)
    } else {
        None
    }
}

/// The syntax options of each preset.
pub open spec fn preset_syntax(preset: LuaSyntaxOptionsPreset) -> LuaSyntaxOptions {
    match preset {
        LuaSyntaxOptionsPreset::Lua51 => crate::luasyntaxoptions::lua51_spec(),
        LuaSyntaxOptionsPreset::Lua52 => crate::luasyntaxoptions::lua52_spec(),
        LuaSyntaxOptionsPreset::Lua53 => crate::luasyntaxoptions::lua53_spec(),
        LuaSyntaxOptionsPreset::Lua54 => crate::luasyntaxoptions::lua54_spec(),
        LuaSyntaxOptionsPreset::LuaJit20 => crate::luasyntaxoptions::luajit20_spec(),
        LuaSyntaxOptionsPreset::LuaJit21 => crate::luasyntaxoptions::luajit21_spec(),
        LuaSyntaxOptionsPreset::GMod => crate::luasyntaxoptions::gmod_spec(),
        LuaSyntaxOptionsPreset::Luau => crate::luasyntaxoptions::luau_spec(),
        LuaSyntaxOptionsPreset::FiveM => crate::luasyntaxoptions::fivem_spec(),
        LuaSyntaxOptionsPreset::All => crate::luasyntaxoptions::all_spec(),
        LuaSyntaxOptionsPreset::Alli => crate::luasyntaxoptions::all_with_integers_spec(),
    }
}

/// The parse options of a preset.
pub fn preset_enum_to_preset_options(preset: LuaSyntaxOptionsPreset) -> (r: LuaParseOptions)
    ensures
        r.syntax_spec() == preset_syntax(preset),
        r.features_spec().len() == 0,
        r.mode_spec() == "Parse"@,
{
    LuaParseOptions::new(
        match preset {
            LuaSyntaxOptionsPreset::Lua51 => LuaSyntaxOptions::lua51(),
            LuaSyntaxOptionsPreset::Lua52 => LuaSyntaxOptions::lua52(),
            LuaSyntaxOptionsPreset::Lua53 => LuaSyntaxOptions::lua53(),
            LuaSyntaxOptionsPreset::Lua54 => LuaSyntaxOptions::lua54(),
            LuaSyntaxOptionsPreset::LuaJit20 => LuaSyntaxOptions::luajit20(),
            LuaSyntaxOptionsPreset::LuaJit21 => LuaSyntaxOptions::luajit21(),
            LuaSyntaxOptionsPreset::GMod => LuaSyntaxOptions::gmod(),
            LuaSyntaxOptionsPreset::Luau => LuaSyntaxOptions::luau(),
            LuaSyntaxOptionsPreset::FiveM => LuaSyntaxOptions::fivem(),
            LuaSyntaxOptionsPreset::All => LuaSyntaxOptions::all(),
            LuaSyntaxOptionsPreset::Alli => LuaSyntaxOptions::all_with_integers(),
        },
    )
}

/// Whether `args` holds one of `flags`.
pub fn has_flag(args: &[String], flags: &[&str]) -> (r: bool)
    ensures
        r == exists|i: int, j: int|
            0 <= i < args@.len() && 0 <= j < flags@.len() && #[trigger] args@[i]@ == #[trigger] flags@[j]@,
{
    let mut i: usize = 0;
    while i < args.len()
        invariant
            i <= args@.len(),
            forall|a: int, j: int|
                0 <= a < i && 0 <= j < flags@.len() ==> #[trigger] args@[a]@ != #[trigger] flags@[j]@,
        decreases args@.len() - i,
    {
        if is_one_of(args[i].as_str(), flags) {
            return true;
        }
        i = i + 1;
    }
    false
}

/// Whether `a` is one of `flags`.
fn is_one_of(a: &str, flags: &[&str]) -> (r: bool)
    ensures
        r == exists|j: int| 0 <= j < flags@.len() && a@ == #[trigger] flags@[j]@,
{
    let mut j: usize = 0;
    while j < flags.len()
        invariant
            j <= flags@.len(),
            forall|k: int| 0 <= k < j ==> a@ != #[trigger] flags@[k]@,
        decreases flags@.len() - j,
    {
        if str_eq(a, flags[j]) {
            return true;
        }
        j = j + 1;
    }
    false
}

/// Whether `a` is one of `flags`.
pub open spec fn in_flags(a: Seq<char>, flags: Seq<&str>) -> bool {
    exists|j: int| 0 <= j < flags.len() && a == #[trigger] flags[j]@
}

/// The argument after the first one that is a flag of `flags`: `None` when
/// no argument is such a flag, or when that one is the last.
pub fn option_value(args: &[String], flags: &[&str]) -> (r: Option<String>)
    ensures
        match r {
            Some(v) => exists|i: int|
                0 <= i && i + 1 < args@.len() && in_flags(#[trigger] args@[i]@, flags@) && (forall|
                    k: int,
                | 0 <= k < i ==> !in_flags(#[trigger] args@[k]@, flags@)) && v@ == args@[i + 1]@,
            None => forall|i: int|
                0 <= i < args@.len() && in_flags(#[trigger] args@[i]@, flags@) ==> i == args@.len()
                    - 1 && forall|k: int| 0 <= k < i ==> !in_flags(#[trigger] args@[k]@, flags@),
        },
{
    let mut i: usize = 0;
    while i < args.len()
        invariant
            i <= args@.len(),
            forall|k: int| 0 <= k < i ==> !in_flags(#[trigger] args@[k]@, flags@),
        decreases args@.len() - i,
    {
        if is_one_of(args[i].as_str(), flags) {
            if i + 1 < args.len() {
                let v = args[i + 1].clone();
                return Some(v);
            }
            return None;
        }
        i = i + 1;
    }
    None
}

/// Whether the argument starts with `-`.
pub open spec fn is_flag_like(a: Seq<char>) -> bool {
    a.len() > 0 && a[0] == '-'
}

/// The first argument that does not start with `-`, or the empty string.
pub fn first_positional(args: &[String]) -> (r: String)
    ensures
        (exists|i: int|
            0 <= i < args@.len() && !is_flag_like(#[trigger] args@[i]@) && (forall|k: int|
                0 <= k < i ==> is_flag_like(#[trigger] args@[k]@)) && r@ == args@[i]@) || ((forall|
            k: int,
        | 0 <= k < args@.len() ==> is_flag_like(#[trigger] args@[k]@)) && r@ == Seq::<char>::empty()),
{
    let mut i: usize = 0;
    while i < args.len()
        invariant
            i <= args@.len(),
            forall|k: int| 0 <= k < i ==> is_flag_like(#[trigger] args@[k]@),
        decreases args@.len() - i,
    {
        let cs = str_chars(args[i].as_str());
        if !(cs.len() > 0 && cs[0] == '-') {
            let v = args[i].clone();
            proof {
                assert(!is_flag_like(args@[i as int]@));
            }
            return v;
        }
        i = i + 1;
    }
    let e = String::new();
    proof {
        assert(e@ =~= Seq::<char>::empty());
    }
    e
}

/// Whether `n[i..]` matches `p[j..]`: `*` matches any run of characters,
/// `?` any one character, and every other character itself.
pub open spec fn glob_at(n: Seq<char>, p: Seq<char>, i: int, j: int) -> bool
    decreases p.len() - j, n.len() - i,
{
    if i < 0 || j < 0 || i > n.len() || j > p.len() {
        false
    } else if j == p.len() {
        i == n.len()
    } else if p[j] == '*' {
        glob_at(n, p, i, j + 1) || (i < n.len() && glob_at(n, p, i + 1, j))
    } else if p[j] == '?' {
        i < n.len() && glob_at(n, p, i + 1, j + 1)
    } else {
        i < n.len() && n[i] == p[j] && glob_at(n, p, i + 1, j + 1)
    }
}

fn glob_from(n: &Vec<char>, p: &Vec<char>, i: usize, j: usize) -> (r: bool)
    requires
        i <= n@.len(),
        j <= p@.len(),
    ensures
        r == glob_at(n@, p@, i as int, j as int),
    decreases p@.len() - j, n@.len() - i,
{
    if j == p.len() {
        i == n.len()
    } else if p[j] == '*' {
        if glob_from(n, p, i, j + 1) {
            true
        } else {
            i < n.len() && glob_from(n, p, i + 1, j)
        }
    } else if p[j] == '?' {
        i < n.len() && glob_from(n, p, i + 1, j + 1)
    } else {
        i < n.len() && n[i] == p[j] && glob_from(n, p, i + 1, j + 1)
    }
}

/// Whether the file name `name` matches the wildcard pattern `pattern`
/// (`*` any run of characters, `?` any one character).
pub fn glob_matches(name: &str, pattern: &str) -> (r: bool)
    ensures
        r == glob_at(name@, pattern@, 0, 0),
{
    let n = str_chars(name);
    let p = str_chars(pattern);
    glob_from(&n, &p, 0, 0)
}

/// A duration of `micros` microseconds as `hh:mm:ss.ffffff` (the hours take
/// more digits when needed).
pub open spec fn duration_text(micros: nat) -> Seq<char> {
    let us = micros % 1_000_000;
    let total_s = micros / 1_000_000;
    let s = total_s % 60;
    let total_m = total_s / 60;
    let m = total_m % 60;
    let h = total_m / 60;
    zero_padded(h, 2) + ":"@ + zero_padded(m, 2) + ":"@ + zero_padded(s, 2) + "."@ + zero_padded(
        us,
        6,
    )
}

/// Writes a duration given in microseconds as `hh:mm:ss.ffffff`.
pub fn format_duration(micros: u64) -> (r: String)
    ensures
        r@ == duration_text(micros as nat),
{
    let us = micros % 1_000_000;
    let total_s = micros / 1_000_000;
    let s = total_s % 60;
    let total_m = total_s / 60;
    let m = total_m % 60;
    let h = total_m / 60;
    let mut out: Vec<char> = Vec::new();
    push_zero_padded(&mut out, h, 2);
    push_str(&mut out, ":");
    push_zero_padded(&mut out, m, 2);
    push_str(&mut out, ":");
    push_zero_padded(&mut out, s, 2);
    push_str(&mut out, ".");
    push_zero_padded(&mut out, us, 6);
    proof {
        assert(out@ =~= duration_text(micros as nat));
    }
    string_from_chars(&out)
}

/// The printable form of one character of a token value.
pub open spec fn dump_char(c: char) -> Seq<char> {
    if c == '\n' {
        "\\n"@
    } else if c == '\r' {
        "\\r"@
    } else if c == '\t' {
        "\\t"@
    } else if c == '\\' {
        "\\\\"@
    } else if c == '\0' {
        "\\0"@
    } else if c == '\x07' {
        "\\a"@
    } else if c == '\x08' {
        "\\b"@
    } else if c == '\x0C' {
        "\\f"@
    } else if c == '\x0B' {
        "\\v"@
    } else {
        seq![c]
    }
}

/// The printable form of a token value: each character by `dump_char`.
pub open spec fn dump_text(s: Seq<char>) -> Seq<char>
    decreases s.len(),
{
    if s.len() == 0 {
        seq![]
    } else {
        dump_text(s.drop_last()) + dump_char(s.last())
    }
}

/// The token value with line breaks, tabs, backslashes and the other
/// control characters written as escapes.
pub fn dump_value(text: &str) -> (r: String)
    ensures
        r@ == dump_text(text@),
{
    let cs = str_chars(text);
    let mut out: Vec<char> = Vec::new();
    let mut i: usize = 0;
    proof {
        assert(cs@.take(0) =~= Seq::<char>::empty());
    }
    while i < cs.len()
        invariant
            i <= cs@.len(),
            cs@ == text@,
            out@ == dump_text(cs@.take(i as int)),
        decreases cs@.len() - i,
    {
        let c = cs[i];
        if c == '\n' {
            push_str(&mut out, "\\n");
        } else if c == '\r' {
            push_str(&mut out, "\\r");
        } else if c == '\t' {
            push_str(&mut out, "\\t");
        } else if c == '\\' {
            push_str(&mut out, "\\\\");
        } else if c == '\0' {
            push_str(&mut out, "\\0");
        } else if c == '\x07' {
            push_str(&mut out, "\\a");
        } else if c == '\x08' {
            push_str(&mut out, "\\b");
        } else if c == '\x0C' {
            push_str(&mut out, "\\f");
        } else if c == '\x0B' {
            push_str(&mut out, "\\v");
        } else {
            out.push(c);
        }
        proof {
            assert(cs@.take(i + 1).drop_last() =~= cs@.take(i as int));
        }
        i = i + 1;
    }
    proof {
        assert(cs@.take(cs@.len() as int) =~= cs@);
    }
    string_from_chars(&out)
}

/// The hexadecimal digits of a `\\x` escape: the next two characters, or
/// fewer at the end.
pub open spec fn x_digits(t: Seq<char>) -> Seq<char> {
    if t.len() >= 2 {
        t.take(2)
    } else {
        t
    }
}

/// The digits of a `\\u` escape: after the character that follows the `u`
/// (the brace), everything up to the closing brace or the end.
pub open spec fn u_digits(t: Seq<char>) -> Seq<char> {
    let body = t.drop_first();
    body.take(close_index(body) as int)
}

/// How many characters after the `u` a `\\u` escape takes.
pub open spec fn u_taken(t: Seq<char>) -> nat {
    if t.len() == 0 {
        0
    } else {
        let j = close_index(t.drop_first());
        if j < t.len() - 1 {
            j + 2
        } else {
            t.len()
        }
    }
}

/// Whether the escape of `e` followed by `t` reads: `\\x` needs its digits
/// to be hexadecimal, `\\u` needs a value that is a character.
pub open spec fn decode_step_ok(e: char, t: Seq<char>) -> bool {
    if e == 'x' {
        parse_hex_u32(x_digits(t)) is Some
    } else if e == 'u' {
        t.len() > 0 && parse_hex_u32(u_digits(t)) is Some && is_scalar(parse_hex_u32(u_digits(t))->0)
    } else {
        true
    }
}

/// What the escape of `e` followed by `t` decodes to, and how many
/// characters of `t` it takes.
#[verifier::opaque]
pub open spec fn decode_step(e: char, t: Seq<char>) -> (Seq<char>, nat) {
    if e == 'n' {
        (seq!['\n'], 0)
    } else if e == 'r' {
        (seq!['\r'], 0)
    } else if e == 't' {
        (seq!['\t'], 0)
    } else if e == '0' {
        (seq!['\0'], 0)
    } else if e == 'a' {
        (seq!['\x07'], 0)
    } else if e == 'b' {
        (seq!['\x08'], 0)
    } else if e == 'f' {
        (seq!['\x0C'], 0)
    } else if e == 'v' {
        (seq!['\x0B'], 0)
    } else if e == 'x' {
        (seq![(parse_hex_u32(x_digits(t))->0) as char], x_digits(t).len())
    } else if e == 'u' {
        (seq![(parse_hex_u32(u_digits(t))->0) as char], u_taken(t))
    } else {
        (seq![e], 0)
    }
}

pub proof fn lemma_decode_step_len(e: char, t: Seq<char>)
    ensures
        decode_step(e, t).1 <= t.len(),
{
    reveal(decode_step);
}

/// The text with its escapes decoded; a backslash at the very end is dropped.
pub open spec fn decode(s: Seq<char>) -> Seq<char>
    decreases s.len(),
{
    if s.len() == 0 {
        seq![]
    } else if s[0] != '\\' {
        seq![s[0]] + decode(s.drop_first())
    } else if s.len() == 1 {
        seq![]
    } else {
        let t = s.skip(2);
        let step = decode_step(s[1], t);
        proof {
            lemma_decode_step_len(s[1], t);
        }
        step.0 + decode(t.skip(step.1 as int))
    }
}

/// Whether every escape of the text reads.
pub open spec fn decode_ok(s: Seq<char>) -> bool
    decreases s.len(),
{
    if s.len() == 0 {
        true
    } else if s[0] != '\\' {
        decode_ok(s.drop_first())
    } else if s.len() == 1 {
        true
    } else {
        let t = s.skip(2);
        let step = decode_step(s[1], t);
        proof {
            lemma_decode_step_len(s[1], t);
        }
        decode_step_ok(s[1], t) && decode_ok(t.skip(step.1 as int))
    }
}

/// Writes what the escape of `e` followed by `cs[j..]` decodes to and gives
/// how many characters after `e` it took.
fn push_decoded(cs: &Vec<char>, j: usize, e: char, out: &mut Vec<char>) -> (k: usize)
    requires
        j <= cs@.len(),
        decode_step_ok(e, cs@.skip(j as int)),
    ensures
        final(out)@ == old(out)@ + decode_step(e, cs@.skip(j as int)).0,
        k == decode_step(e, cs@.skip(j as int)).1,
{
    let ghost t = cs@.skip(j as int);
    let k: usize;
    if e == 'n' {
        out.push('\n');
        k = 0;
    } else if e == 'r' {
        out.push('\r');
        k = 0;
    } else if e == 't' {
        out.push('\t');
        k = 0;
    } else if e == '0' {
        out.push('\0');
        k = 0;
    } else if e == 'a' {
        out.push('\x07');
        k = 0;
    } else if e == 'b' {
        out.push('\x08');
        k = 0;
    } else if e == 'f' {
        out.push('\x0C');
        k = 0;
    } else if e == 'v' {
        out.push('\x0B');
        k = 0;
    } else if e == 'x' {
        let end = if cs.len() - j >= 2 {
            j + 2
        } else {
            cs.len()
        };
        proof {
            assert(cs@.subrange(j as int, end as int) =~= x_digits(t));
        }
        let v = parse_hex_range(cs, j, end);
        match v {
            Some(v) => {
                let c = char_from_u32(v);
                proof {
                    assert(v < 256) by {
                        assert(x_digits(t).len() <= 2);
                        lemma_hex_below(x_digits(t));
                    }
                }
                match c {
                    Some(c) => out.push(c),
                    None => {},
                }
            },
            None => {},
        }
        k = end - j;
    } else if e == 'u' {
        proof {
            assert(t.len() == cs@.len() - j);
            assert(decode_step_ok(e, t));
            assert(t.len() > 0);
        }
        let n = cs.len();
        proof {
            assert(j < n);
        }
        let mut m: usize = j + 1;
        while m < cs.len() && cs[m] != '}'
            invariant
                j + 1 <= m <= cs@.len(),
                forall|p: int| j + 1 <= p < m ==> cs@[p] != '}',
            decreases cs@.len() - m,
        {
            m = m + 1;
        }
        let ghost body = t.drop_first();
        proof {
            assert(body =~= cs@.skip(j + 1));
            lemma_close_index_at(body, m - (j + 1));
            assert(body.take(m - (j + 1)) =~= cs@.subrange(j + 1, m as int));
        }
        let v = parse_hex_range(cs, j + 1, m);
        match v {
            Some(v) => match char_from_u32(v) {
                Some(c) => out.push(c),
                None => {},
            },
            None => {},
        }
        k = if m < cs.len() {
            m + 1 - j
        } else {
            cs.len() - j
        };
    } else {
        out.push(e);
        k = 0;
    }
    proof {
        reveal(decode_step);
    }
    k
}

/// Up to two hexadecimal digits (after an optional `+`) make a value below 256.
proof fn lemma_hex_below(d: Seq<char>)
    requires
        d.len() <= 2,
        parse_hex_u32(d) is Some,
    ensures
        parse_hex_u32(d)->0 < 256,
{
    let ds = if d.len() > 0 && d[0] == '+' {
        d.drop_first()
    } else {
        d
    };
    assert(ds.len() <= 2);
    assert(all_hex(ds));
    if ds.len() == 1 {
        assert(is_hex(ds[0]));
        assert(ds.drop_last().len() == 0);
        assert(hex_digits_value(ds.drop_last()) == 0);
        assert(hex_digits_value(ds) == hex_val(ds[0]));
    } else if ds.len() == 2 {
        assert(is_hex(ds[0]));
        assert(is_hex(ds[1]));
        let d1 = ds.drop_last();
        assert(d1.len() == 1 && d1[0] == ds[0]);
        assert(d1.drop_last().len() == 0);
        assert(hex_digits_value(d1.drop_last()) == 0);
        assert(hex_digits_value(d1) == hex_val(ds[0]));
        assert(hex_digits_value(ds) == hex_val(ds[0]) * 16 + hex_val(ds[1]));
    }
}

/// Decodes the escapes of a string literal's text: `\\n \\r \\t \\0 \\a
/// \\b \\f \\v`, `\\xXX`, `\\u{X...}`, and any other escaped character
/// for itself.
pub fn decode_escapes(input: &str) -> (r: String)
    requires
        decode_ok(input@),
    ensures
        r@ == decode(input@),
{
    let cs = str_chars(input);
    let mut out: Vec<char> = Vec::new();
    let mut i: usize = 0;
    proof {
        assert(cs@.skip(0) =~= cs@);
        assert(out@ + decode(cs@) =~= decode(cs@));
    }
    while i < cs.len()
        invariant
            i <= cs@.len(),
            cs@ == input@,
            decode(cs@) == out@ + decode(cs@.skip(i as int)),
            decode_ok(cs@.skip(i as int)),
        decreases cs@.len() - i,
    {
        let ghost s = cs@.skip(i as int);
        let ghost before = out@;
        let c = cs[i];
        if c != '\\' {
            out.push(c);
            proof {
                assert(s.drop_first() =~= cs@.skip(i + 1));
                assert(before + (seq![c] + decode(s.drop_first())) =~= out@ + decode(cs@.skip(i + 1)));
            }
            i = i + 1;
        } else if i + 1 == cs.len() {
            proof {
                assert(s.len() == 1);
                assert(cs@.skip(i + 1).len() == 0);
                assert(out@ + decode(cs@.skip(i + 1)) =~= before);
            }
            i = i + 1;
        } else {
            let e = cs[i + 1];
            proof {
                assert(s.skip(2) =~= cs@.skip(i + 2));
            }
            let k = push_decoded(&cs, i + 2, e, &mut out);
            proof {
                lemma_decode_step_len(e, cs@.skip(i + 2));
                assert(cs@.skip(i + 2).skip(k as int) =~= cs@.skip(i + 2 + k));
                let step = decode_step(e, s.skip(2));
                assert(before + (step.0 + decode(cs@.skip(i + 2 + k))) =~= out@ + decode(
                    cs@.skip(i + 2 + k),
                ));
            }
            i = i + 2 + k;
        }
    }
    proof {
        assert(cs@.skip(i as int).len() == 0);
        assert(out@ + seq![] =~= out@);
    }
    string_from_chars(&out)
}

/// The index of the first `]]` in `s`.
pub open spec fn find_close(s: Seq<char>) -> Option<nat>
    decreases s.len(),
{
    if s.len() < 2 {
        None
    } else if s[0] == ']' && s[1] == ']' {
        Some(0)
    } else {
        match find_close(s.drop_first()) {
            Some(i) => Some(i + 1),
            None => None,
        }
    }
}

/// The index of the last `c` in `s`.
pub open spec fn last_index(s: Seq<char>, c: char) -> Option<nat>
    decreases s.len(),
{
    if s.len() == 0 {
        None
    } else if s.last() == c {
        Some((s.len() - 1) as nat)
    } else {
        last_index(s.drop_last(), c)
    }
}

/// Whether a quoted literal's text (after its opening quote `q`) has a
/// closing quote and, when `escapes`, escapes that read.
pub open spec fn quoted_ok(rest: Seq<char>, q: char, escapes: bool) -> bool {
    match last_index(rest, q) {
        Some(e) => !escapes || decode_ok(rest.take(e as int)),
        None => false,
    }
}

/// Whether the value of a string literal's text can be read: a long string
/// needs its `]]`, a quoted one its closing quote and readable escapes.
pub open spec fn string_value_ok(t: Seq<char>) -> bool {
    if t.len() >= 2 && t[0] == '[' && t[1] == '[' {
        find_close(t.skip(2)) is Some
    } else if t.len() >= 1 && (t[0] == '"' || t[0] == '\'') {
        quoted_ok(t.skip(1), t[0], true)
    } else if t.len() >= 1 && t[0] == '`' {
        quoted_ok(t.skip(1), '`', false)
    } else {
        true
    }
}

/// The value of a string literal's text: a long string's text up to the
/// first `]]`, a quoted string's text up to its last quote with its escapes
/// decoded, a backtick string's text up to its last backtick; any other text
/// as it is.
pub open spec fn string_value(t: Seq<char>) -> Seq<char> {
    if t.len() >= 2 && t[0] == '[' && t[1] == '[' {
        t.skip(2).take(find_close(t.skip(2))->0 as int)
    } else if t.len() >= 1 && (t[0] == '"' || t[0] == '\'') {
        decode(t.skip(1).take(last_index(t.skip(1), t[0])->0 as int))
    } else if t.len() >= 1 && t[0] == '`' {
        t.skip(1).take(last_index(t.skip(1), '`')->0 as int)
    } else {
        t
    }
}

proof fn lemma_find_close_bound(s: Seq<char>)
    ensures
        find_close(s) matches Some(i) ==> i + 2 <= s.len(),
    decreases s.len(),
{
    if s.len() >= 2 && !(s[0] == ']' && s[1] == ']') {
        lemma_find_close_bound(s.drop_first());
    }
}

proof fn lemma_last_index_bound(s: Seq<char>, c: char)
    ensures
        last_index(s, c) matches Some(i) ==> i < s.len(),
    decreases s.len(),
{
    if s.len() > 0 && s.last() != c {
        lemma_last_index_bound(s.drop_last(), c);
    }
}

/// The first `]]` in `cs` from `from` on, as an index into `cs`.
fn find_close_from(cs: &Vec<char>, from: usize) -> (r: Option<usize>)
    requires
        from <= cs@.len(),
    ensures
        match find_close(cs@.skip(from as int)) {
            Some(i) => r == Some((from + i) as usize),
            None => r is None,
        },
{
    let mut i: usize = from;
    proof {
        assert(cs@.skip(from as int).skip(0) =~= cs@.skip(from as int));
    }
    while cs.len() - i >= 2
        invariant
            from <= i <= cs@.len(),
            match find_close(cs@.skip(from as int)) {
                Some(x) => match find_close(cs@.skip(i as int)) {
                    Some(y) => x == y + (i - from),
                    None => false,
                },
                None => find_close(cs@.skip(i as int)) is None,
            },
        decreases cs@.len() - i,
    {
        if cs[i] == ']' && cs[i + 1] == ']' {
            proof {
                assert(cs@.skip(i as int)[0] == ']' && cs@.skip(i as int)[1] == ']');
            }
            return Some(i);
        }
        proof {
            assert(cs@.skip(i as int).drop_first() =~= cs@.skip(i + 1));
        }
        i = i + 1;
    }
    proof {
        assert(cs@.skip(i as int).len() < 2);
    }
    None
}

/// The last `c` in `cs[from..]`, as an index into `cs`.
fn last_index_from(cs: &Vec<char>, from: usize, c: char) -> (r: Option<usize>)
    requires
        from <= cs@.len(),
    ensures
        match last_index(cs@.skip(from as int), c) {
            Some(i) => r == Some((from + i) as usize),
            None => r is None,
        },
{
    let mut e: usize = cs.len();
    proof {
        assert(cs@.subrange(from as int, e as int) =~= cs@.skip(from as int));
    }
    while e > from
        invariant
            from <= e <= cs@.len(),
            last_index(cs@.skip(from as int), c) == last_index(cs@.subrange(from as int, e as int), c),
        decreases e - from,
    {
        if cs[e - 1] == c {
            return Some(e - 1);
        }
        proof {
            assert(cs@.subrange(from as int, e as int).drop_last() =~= cs@.subrange(from as int, e - 1));
        }
        e = e - 1;
    }
    None
}

/// `cs[from..to]` as a string.
fn slice_text(cs: &Vec<char>, from: usize, to: usize) -> (r: String)
    requires
        from <= to <= cs@.len(),
    ensures
        r@ == cs@.subrange(from as int, to as int),
{
    let mut v: Vec<char> = Vec::new();
    let mut i: usize = from;
    while i < to
        invariant
            from <= i <= to <= cs@.len(),
            v@ == cs@.subrange(from as int, i as int),
        decreases to - i,
    {
        v.push(cs[i]);
        i = i + 1;
        proof {
            assert(v@ =~= cs@.subrange(from as int, i as int));
        }
    }
    string_from_chars(&v)
}

/// The value of a string literal's text (its quotes stripped, its escapes
/// decoded).
pub fn string_value_text(text: &str) -> (r: String)
    requires
        string_value_ok(text@),
    ensures
        r@ == string_value(text@),
{
    let cs = str_chars(text);
    let n = cs.len();
    if n >= 2 && cs[0] == '[' && cs[1] == '[' {
        let end = find_close_from(&cs, 2);
        proof {
            lemma_find_close_bound(cs@.skip(2));
        }
        match end {
            Some(e) => {
                proof {
                    assert(cs@.subrange(2, e as int) =~= cs@.skip(2).take(e - 2));
                }
                slice_text(&cs, 2, e)
            },
            None => {
                proof {
                    assert(false);
                }
                String::new()
            },
        }
    } else if n >= 1 && (cs[0] == '"' || cs[0] == '\'' || cs[0] == '`') {
        let q = cs[0];
        let end = last_index_from(&cs, 1, q);
        proof {
            lemma_last_index_bound(cs@.skip(1), q);
        }
        match end {
            Some(e) => {
                let inner = slice_text(&cs, 1, e);
                proof {
                    assert(cs@.subrange(1, e as int) =~= cs@.skip(1).take(e - 1));
                }
                if q == '`' {
                    inner
                } else {
                    decode_escapes(inner.as_str())
                }
            },
            None => {
                proof {
                    assert(false);
                }
                String::new()
            },
        }
    } else {
        text.to_owned()
    }
}

/// The value of the digit `c` in base `radix` (2, 8, 10 or 16).
pub open spec fn digit_in(c: char, radix: nat) -> Option<nat> {
    let u = c as u32;
    if 48 <= u && u <= 57 && ((u - 48) as nat) < radix {
        Some((u - 48) as nat)
    } else if radix == 16 && 97 <= u && u <= 102 {
        Some((u - 87) as nat)
    } else if radix == 16 && 65 <= u && u <= 70 {
        Some((u - 55) as nat)
    } else {
        None
    }
}

/// Every character of `d` is a digit in base `radix`.
pub open spec fn all_digits_in(d: Seq<char>, radix: nat) -> bool {
    forall|i: int| 0 <= i < d.len() ==> #[trigger] digit_in(d[i], radix) is Some
}

/// The value of the digits `d` in base `radix`, most significant first.
pub open spec fn radix_value(d: Seq<char>, radix: nat) -> nat
    decreases d.len(),
{
    if d.len() == 0 {
        0
    } else {
        radix_value(d.drop_last(), radix) * radix + digit_in(d.last(), radix)->0
    }
}

/// The `i64` that `d` spells in base `radix`, with an optional sign.
pub open spec fn parse_i64_radix(d: Seq<char>, radix: nat) -> Option<int> {
    let neg = d.len() > 0 && d[0] == '-';
    let ds = if d.len() > 0 && (d[0] == '-' || d[0] == '+') {
        d.drop_first()
    } else {
        d
    };
    if ds.len() == 0 || !all_digits_in(ds, radix) {
        None
    } else {
        let x = if neg {
            -radix_value(ds, radix)
        } else {
            radix_value(ds, radix) as int
        };
        if i64::MIN <= x <= i64::MAX {
            Some(x)
        } else {
            None
        }
    }
}

/// The radix and the digits of an integer literal: `0x`, `0b` and `0o`
/// prefixes (in either case) choose bases 16, 2 and 8, else base 10.
pub open spec fn integer_literal_parts(t: Seq<char>) -> (Seq<char>, nat) {
    if t.len() >= 2 && t[0] == '0' && (t[1] == 'x' || t[1] == 'X') {
        (t.skip(2), 16)
    } else if t.len() >= 2 && t[0] == '0' && (t[1] == 'b' || t[1] == 'B') {
        (t.skip(2), 2)
    } else if t.len() >= 2 && t[0] == '0' && (t[1] == 'o' || t[1] == 'O') {
        (t.skip(2), 8)
    } else {
        (t, 10)
    }
}

proof fn lemma_radix_value_grows(d: Seq<char>, i: int, radix: nat)
    requires
        0 <= i < d.len(),
        radix >= 2,
    ensures
        radix_value(d.take(i + 1), radix) == radix_value(d.take(i), radix) * radix + digit_in(
            d[i],
            radix,
        )->0,
{
    assert(d.take(i + 1).drop_last() =~= d.take(i));
}

/// The digit value of `c` in base `radix`, if it is such a digit.
fn digit_value_in(c: char, radix: u32) -> (r: Option<u32>)
    ensures
        match digit_in(c, radix as nat) {
            Some(v) => r == Some(v as u32),
            None => r is None,
        },
{
    let u = c as u32;
    if 48 <= u && u <= 57 && u - 48 < radix {
        Some(u - 48)
    } else if radix == 16 && 97 <= u && u <= 102 {
        Some(u - 87)
    } else if radix == 16 && 65 <= u && u <= 70 {
        Some(u - 55)
    } else {
        None
    }
}

/// Reads `cs[from..]` as a signed integer in base `radix`.
fn parse_i64_from(cs: &Vec<char>, from: usize, radix: u32) -> (r: Option<i64>)
    requires
        from <= cs@.len(),
        radix == 2 || radix == 8 || radix == 10 || radix == 16,
    ensures
        match parse_i64_radix(cs@.skip(from as int), radix as nat) {
            Some(v) => r == Some(v as i64),
            None => r is None,
        },
{
    let ghost d = cs@.skip(from as int);
    let n = cs.len();
    let neg = from < n && cs[from] == '-';
    let start = if from < n && (cs[from] == '-' || cs[from] == '+') {
        from + 1
    } else {
        from
    };
    let ghost ds = cs@.skip(start as int);
    proof {
        if from < n {
            assert(d[0] == cs@[from as int]);
        }
        if from < n && (d[0] == '-' || d[0] == '+') {
            assert(ds =~= d.drop_first());
        } else {
            assert(ds =~= d);
        }
    }
    if start == n {
        return None;
    }
    let limit: u128 = 0x8000_0000_0000_0000;
    let mut acc: u128 = 0;
    let mut i: usize = start;
    proof {
        assert(ds.take(0) =~= Seq::<char>::empty());
    }
    while i < n
        invariant
            start <= i <= n == cs@.len(),
            ds == cs@.skip(start as int),
            d == cs@.skip(from as int),
            ds == (if d.len() > 0 && (d[0] == '-' || d[0] == '+') {
                d.drop_first()
            } else {
                d
            }),
            limit == 0x8000_0000_0000_0000,
            radix == 2 || radix == 8 || radix == 10 || radix == 16,
            forall|q: int| 0 <= q < i - start ==> #[trigger] digit_in(ds[q], radix as nat) is Some,
            radix_value(ds.take(i - start), radix as nat) <= limit ==> acc == radix_value(
                ds.take(i - start),
                radix as nat,
            ),
            radix_value(ds.take(i - start), radix as nat) > limit ==> acc > limit,
            acc <= limit * 16 + 15,
        decreases n - i,
    {
        let dv = digit_value_in(cs[i], radix);
        match dv {
            None => {
                proof {
                    assert(ds[i - start] == cs@[i as int]);
                    assert(!all_digits_in(ds, radix as nat));
                }
                return None;
            },
            Some(v) => {
                proof {
                    assert(ds[i - start] == cs@[i as int]);
                    lemma_radix_value_grows(ds, i - start, radix as nat);
                }
                if acc <= limit {
                    acc = acc * (radix as u128) + (v as u128);
                }
            },
        }
        i = i + 1;
    }
    proof {
        assert(ds.take(n - start) =~= ds);
        assert(all_digits_in(ds, radix as nat));
    }
    if neg {
        if acc > limit {
            None
        } else if acc == limit {
            Some(i64::MIN)
        } else {
            let a = acc as i64;
            Some(-a)
        }
    } else {
        if acc > 0x7FFF_FFFF_FFFF_FFFF {
            None
        } else {
            Some(acc as i64)
        }
    }
}

/// Whether the escape of `e` followed by `cs[j..]` reads.
fn decode_step_readable(cs: &Vec<char>, j: usize, e: char) -> (r: bool)
    requires
        j <= cs@.len(),
    ensures
        r == decode_step_ok(e, cs@.skip(j as int)),
{
    let ghost t = cs@.skip(j as int);
    if e == 'x' {
        let end = if cs.len() - j >= 2 {
            j + 2
        } else {
            cs.len()
        };
        proof {
            assert(cs@.subrange(j as int, end as int) =~= x_digits(t));
        }
        parse_hex_range(cs, j, end).is_some()
    } else if e == 'u' {
        if j >= cs.len() {
            return false;
        }
        let mut m: usize = j + 1;
        while m < cs.len() && cs[m] != '}'
            invariant
                j + 1 <= m <= cs@.len(),
                forall|p: int| j + 1 <= p < m ==> cs@[p] != '}',
            decreases cs@.len() - m,
        {
            m = m + 1;
        }
        let ghost body = t.drop_first();
        proof {
            assert(body =~= cs@.skip(j + 1));
            lemma_close_index_at(body, m - (j + 1));
            assert(body.take(m - (j + 1)) =~= cs@.subrange(j + 1, m as int));
        }
        match parse_hex_range(cs, j + 1, m) {
            Some(v) => char_from_u32(v).is_some(),
            None => false,
        }
    } else {
        true
    }
}

/// Whether every escape of the text reads (`decode_ok`).
pub fn escapes_read(input: &str) -> (r: bool)
    ensures
        r == decode_ok(input@),
{
    let cs = str_chars(input);
    let mut scratch: Vec<char> = Vec::new();
    let mut i: usize = 0;
    proof {
        assert(cs@.skip(0) =~= cs@);
    }
    while i < cs.len()
        invariant
            i <= cs@.len(),
            cs@ == input@,
            decode_ok(cs@) == decode_ok(cs@.skip(i as int)),
        decreases cs@.len() - i,
    {
        let ghost s = cs@.skip(i as int);
        let c = cs[i];
        if c != '\\' {
            proof {
                assert(s.drop_first() =~= cs@.skip(i + 1));
            }
            i = i + 1;
        } else if i + 1 == cs.len() {
            proof {
                assert(cs@.skip(i + 1).len() == 0);
            }
            i = i + 1;
        } else {
            let e = cs[i + 1];
            proof {
                assert(s.skip(2) =~= cs@.skip(i + 2));
            }
            if !decode_step_readable(&cs, i + 2, e) {
                return false;
            }
            let k = push_decoded(&cs, i + 2, e, &mut scratch);
            proof {
                lemma_decode_step_len(e, cs@.skip(i + 2));
                assert(cs@.skip(i + 2).skip(k as int) =~= cs@.skip(i + 2 + k));
            }
            i = i + 2 + k;
        }
    }
    proof {
        assert(cs@.skip(i as int).len() == 0);
    }
    true
}

/// The text with its escapes decoded, or `None` when an escape does not
/// read.
pub fn try_decode_escapes(input: &str) -> (r: Option<String>)
    ensures
        decode_ok(input@) ==> r is Some && r->0@ == decode(input@),
        !decode_ok(input@) ==> r is None,
{
    if escapes_read(input) {
        Some(decode_escapes(input))
    } else {
        None
    }
}

/// Whether the value of a string literal's text can be read
/// (`string_value_ok`).
pub fn string_value_readable(text: &str) -> (r: bool)
    ensures
        r == string_value_ok(text@),
{
    let cs = str_chars(text);
    let n = cs.len();
    if n >= 2 && cs[0] == '[' && cs[1] == '[' {
        find_close_from(&cs, 2).is_some()
    } else if n >= 1 && (cs[0] == '"' || cs[0] == '\'' || cs[0] == '`') {
        let q = cs[0];
        proof {
            lemma_last_index_bound(cs@.skip(1), q);
        }
        match last_index_from(&cs, 1, q) {
            Some(e) => {
                if q == '`' {
                    true
                } else {
                    let inner = slice_text(&cs, 1, e);
                    proof {
                        assert(cs@.subrange(1, e as int) =~= cs@.skip(1).take(e - 1));
                    }
                    escapes_read(inner.as_str())
                }
            },
            None => false,
        }
    } else {
        true
    }
}

/// The value of a string literal's text, or `None` when it cannot be read.
pub fn try_string_value_text(text: &str) -> (r: Option<String>)
    ensures
        string_value_ok(text@) ==> r is Some && r->0@ == string_value(text@),
        !string_value_ok(text@) ==> r is None,
{
    if string_value_readable(text) {
        Some(string_value_text(text))
    } else {
        None
    }
}

/// The value of an integer literal's text, read in the base its prefix
/// chooses, or `None` when the digits do not form an `i64` in that base.
pub fn try_parse_integer(text: &str) -> (r: Option<i64>)
    ensures
        match parse_i64_radix(integer_literal_parts(text@).0, integer_literal_parts(text@).1) {
            Some(v) => r == Some(v as i64) && v == r->0,
            None => r is None,
        },
{
    let cs = str_chars(text);
    let n = cs.len();
    let (from, radix): (usize, u32) = if n >= 2 && cs[0] == '0' && (cs[1] == 'x' || cs[1] == 'X') {
        (2, 16)
    } else if n >= 2 && cs[0] == '0' && (cs[1] == 'b' || cs[1] == 'B') {
        (2, 2)
    } else if n >= 2 && cs[0] == '0' && (cs[1] == 'o' || cs[1] == 'O') {
        (2, 8)
    } else {
        (0, 10)
    };
    proof {
        assert(cs@.skip(0) =~= cs@);
    }
    parse_i64_from(&cs, from, radix)
}

/// The value of an integer literal's text, read in the base its prefix
/// chooses.
pub fn parse_integer(text: &str) -> (r: i64)
    requires
        parse_i64_radix(integer_literal_parts(text@).0, integer_literal_parts(text@).1) is Some,
    ensures
        r == parse_i64_radix(integer_literal_parts(text@).0, integer_literal_parts(text@).1)->0,
{
    match try_parse_integer(text) {
        Some(v) => v,
        None => 0,
    }
}

/// Unicode white space (the `White_Space` property).
pub open spec fn is_white_space(c: char) -> bool {
    let u = c as u32;
    (9 <= u && u <= 13) || u == 32 || u == 0x85 || u == 0xA0 || u == 0x1680 || (0x2000 <= u && u
        <= 0x200A) || u == 0x2028 || u == 0x2029 || u == 0x202F || u == 0x205F || u == 0x3000
}

fn white_space(c: char) -> (r: bool)
    ensures
        r == is_white_space(c),
{
    let u = c as u32;
    (9 <= u && u <= 13) || u == 32 || u == 0x85 || u == 0xA0 || u == 0x1680 || (0x2000 <= u && u
        <= 0x200A) || u == 0x2028 || u == 0x2029 || u == 0x202F || u == 0x205F || u == 0x3000
}

/// The words found so far and the word being read, after reading `s`.
pub open spec fn split_from(s: Seq<char>, words: Seq<Seq<char>>, cur: Seq<char>) -> (
    Seq<Seq<char>>,
    Seq<char>,
)
    decreases s.len(),
{
    if s.len() == 0 {
        (words, cur)
    } else if is_white_space(s[0]) {
        split_from(
            s.drop_first(),
            if cur.len() > 0 {
                words.push(cur)
            } else {
                words
            },
            seq![],
        )
    } else {
        split_from(s.drop_first(), words, cur.push(s[0]))
    }
}

/// The maximal runs of non-white-space characters of `s`, in order.
pub open spec fn split_words(s: Seq<char>) -> Seq<Seq<char>> {
    let (words, cur) = split_from(s, seq![], seq![]);
    if cur.len() > 0 {
        words.push(cur)
    } else {
        words
    }
}

/// The texts of the strings.
pub open spec fn texts(v: Seq<String>) -> Seq<Seq<char>> {
    v.map_values(|x: String| x@)
}

/// Splits a command's arguments at white space.
pub fn parse_args(args: &str) -> (r: Vec<String>)
    ensures
        texts(r@) == split_words(args@),
{
    let cs = str_chars(args);
    let mut words: Vec<String> = Vec::new();
    let mut cur: Vec<char> = Vec::new();
    let mut i: usize = 0;
    proof {
        assert(cs@.skip(0) =~= cs@);
        assert(texts(words@) =~= seq![]);
        assert(cur@ =~= seq![]);
    }
    while i < cs.len()
        invariant
            i <= cs@.len(),
            cs@ == args@,
            split_from(cs@, seq![], seq![]) == split_from(cs@.skip(i as int), texts(words@), cur@),
        decreases cs@.len() - i,
    {
        let c = cs[i];
        proof {
            assert(cs@.skip(i as int).drop_first() =~= cs@.skip(i + 1));
        }
        if white_space(c) {
            if cur.len() > 0 {
                let ghost wb = words@;
                let w = string_from_chars(&cur);
                words.push(w);
                proof {
                    assert(texts(words@) =~= texts(wb).push(cur@));
                }
            }
            cur = Vec::new();
            proof {
                assert(cur@ =~= seq![]);
            }
        } else {
            cur.push(c);
        }
        i = i + 1;
    }
    proof {
        assert(cs@.skip(i as int).len() == 0);
    }
    if cur.len() > 0 {
        let ghost wb = words@;
        let w = string_from_chars(&cur);
        words.push(w);
        proof {
            assert(texts(words@) =~= texts(wb).push(cur@));
        }
    }
    words
}

/// A node of the compact tree dump: a name, an optional value, and the
/// nodes under it.
pub struct DumpNode {
    pub name: String,
    pub value: Option<String>,
    pub children: Vec<DumpNode>,
}

/// A node's line: `name: value`, or the name alone.
pub open spec fn dump_label(n: DumpNode) -> Seq<char> {
    match n.value {
        Some(v) => n.name@ + ": "@ + v@,
        None => n.name@,
    }
}

/// The branch drawn before a node: `└─` for the last child, else `├─`.
pub open spec fn branch(is_last: bool) -> Seq<char> {
    if is_last {
        "└─"@
    } else {
        "├─"@
    }
}

/// What the children of a node are indented by, after its own indent:
/// blanks under the last child, else a vertical bar.
pub open spec fn child_indent(is_last: bool) -> Seq<char> {
    if is_last {
        "  "@
    } else {
        "│ "@
    }
}

/// The lines of a node and of the nodes under it, each line after `prefix`.
pub open spec fn node_text(n: DumpNode, prefix: Seq<char>, is_last: bool) -> Seq<char>
    decreases n, 0nat,
{
    prefix + branch(is_last) + dump_label(n) + "\n"@ + children_text(
        n.children@,
        prefix + child_indent(is_last),
        0,
    )
}

/// The lines of the nodes `cs[i..]`, the last of `cs` drawn as the last child.
pub open spec fn children_text(cs: Seq<DumpNode>, prefix: Seq<char>, i: nat) -> Seq<char>
    decreases cs, cs.len() - i,
{
    if i >= cs.len() {
        seq![]
    } else {
        proof {
            assert(decreases_to!(cs => cs[i as int]));
        }
        node_text(cs[i as int], prefix, i + 1 == cs.len()) + children_text(cs, prefix, i + 1)
    }
}

/// The compact dump of a tree whose root has the given children: a `Root`
/// line, then every node's line, without a line break at the very end.
pub open spec fn dump_tree_text(children: Seq<DumpNode>) -> Seq<char> {
    let full = "Root\n"@ + children_text(children, seq![], 0);
    full.drop_last()
}

fn write_node(node: &DumpNode, prefix: &Vec<char>, is_last: bool, out: &mut Vec<char>)
    ensures
        final(out)@ == old(out)@ + node_text(*node, prefix@, is_last),
    decreases node,
{
    push_chars(out, prefix.as_slice());
    if is_last {
        push_str(out, "└─");
    } else {
        push_str(out, "├─");
    }
    push_str(out, node.name.as_str());
    match &node.value {
        Some(v) => {
            push_str(out, ": ");
            push_str(out, v.as_str());
        },
        None => {},
    }
    push_str(out, "\n");
    let mut child_prefix: Vec<char> = Vec::new();
    push_chars(&mut child_prefix, prefix.as_slice());
    if is_last {
        push_str(&mut child_prefix, "  ");
    } else {
        push_str(&mut child_prefix, "│ ");
    }
    let ghost head = out@;
    proof {
        assert(head =~= old(out)@ + (prefix@ + branch(is_last) + dump_label(*node) + "\n"@));
        assert(child_prefix@ =~= prefix@ + child_indent(is_last));
    }
    let n = node.children.len();
    let mut i: usize = 0;
    while i < n
        invariant
            i <= n == node.children@.len(),
            child_prefix@ == prefix@ + child_indent(is_last),
            head + children_text(node.children@, child_prefix@, 0) == out@ + children_text(
                node.children@,
                child_prefix@,
                i as nat,
            ),
        decreases n - i,
    {
        proof {
            assert(decreases_to!(*node => node.children@[i as int]));
        }
        write_node(&node.children[i], &child_prefix, i + 1 == n, out);
        proof {
            assert(head + children_text(node.children@, child_prefix@, 0) =~= out@ + children_text(
                node.children@,
                child_prefix@,
                (i + 1) as nat,
            ));
        }
        i = i + 1;
    }
    proof {
        assert(out@ =~= old(out)@ + node_text(*node, prefix@, is_last));
    }
}

/// The compact dump of a tree whose root has the given children: `Root`,
/// then for each node a line of its indent, its branch and its label.
pub fn dump_tree(children: &[DumpNode]) -> (r: String)
    ensures
        r@ == dump_tree_text(children@),
{
    let mut out: Vec<char> = Vec::new();
    push_str(&mut out, "Root\n");
    let empty: Vec<char> = Vec::new();
    let ghost head = out@;
    let n = children.len();
    let mut i: usize = 0;
    while i < n
        invariant
            i <= n == children@.len(),
            empty@ == Seq::<char>::empty(),
            head == "Root\n"@,
            head + children_text(children@, seq![], 0) == out@ + children_text(
                children@,
                seq![],
                i as nat,
            ),
        decreases n - i,
    {
        write_node(&children[i], &empty, i + 1 == n, &mut out);
        proof {
            assert(head + children_text(children@, seq![], 0) =~= out@ + children_text(
                children@,
                seq![],
                (i + 1) as nat,
            ));
        }
        i = i + 1;
    }
    proof {
        assert(out@ + seq![] =~= out@);
        reveal_strlit("Root\n");
        assert(out@.len() > 0);
    }
    out.pop();
    string_from_chars(&out)
}

/// The kind of a whitespace trivia: an end-of-line trivia when it holds a
/// line break, else a whitespace trivia.
pub fn whitespace_trivia_kind(text: &str) -> (r: &'static str)
    ensures
        r@ == (if text@.contains('\n') || text@.contains('\r') {
            "EndOfLineTrivia"@
        } else {
            "WhitespaceTrivia"@
        }),
{
    let cs = str_chars(text);
    let mut i: usize = 0;
    while i < cs.len()
        invariant
            i <= cs@.len(),
            cs@ == text@,
            forall|q: int| 0 <= q < i ==> cs@[q] != '\n' && cs@[q] != '\r',
        decreases cs@.len() - i,
    {
        if cs[i] == '\n' || cs[i] == '\r' {
            return "EndOfLineTrivia";
        }
        i = i + 1;
    }
    "WhitespaceTrivia"
}

/// `s` with every `_` replaced by a space.
pub open spec fn underscores_to_spaces(s: Seq<char>) -> Seq<char> {
    s.map_values(|c: char| if c == '_' { ' ' } else { c })
}

/// The title line of a Lua distribution's section: `===== name ` followed
/// by `=` up to `width` bytes.
pub open spec fn section_title(version: Seq<char>, width: nat) -> Seq<char> {
    let head = "===== "@ + underscores_to_spaces(version) + " "@;
    let n = encode_utf8(head).len();
    head + Seq::new(if n < width { (width - n) as nat } else { 0 }, |_i: int| '=')
}

/// The title line of a distribution's section: its name (`_` read as a
/// space) between `=====` and enough `=` to fill `width` bytes.
pub fn multi_lua_title(version: &str, width: usize) -> (r: String)
    ensures
        r@ == section_title(version@, width as nat),
{
    let cs = str_chars(version);
    let mut head: Vec<char> = Vec::new();
    push_str(&mut head, "===== ");
    let ghost h0 = head@;
    let mut i: usize = 0;
    while i < cs.len()
        invariant
            i <= cs@.len(),
            cs@ == version@,
            head@ == h0 + underscores_to_spaces(cs@.take(i as int)),
        decreases cs@.len() - i,
    {
        if cs[i] == '_' {
            head.push(' ');
        } else {
            head.push(cs[i]);
        }
        i = i + 1;
        proof {
            assert(head@ =~= h0 + underscores_to_spaces(cs@.take(i as int)));
        }
    }
    push_str(&mut head, " ");
    proof {
        assert(cs@.take(cs@.len() as int) =~= cs@);
        assert(head@ =~= "===== "@ + underscores_to_spaces(version@) + " "@);
    }
    let text = string_from_chars(&head);
    let n = text.as_str().as_bytes().len();
    let ghost hv = head@;
    let mut k: usize = 0;
    let pad = if n < width {
        width - n
    } else {
        0
    };
    while k < pad
        invariant
            k <= pad,
            head@ == hv + Seq::new(k as nat, |_i: int| '='),
        decreases pad - k,
    {
        head.push('=');
        k = k + 1;
        proof {
            assert(head@ =~= hv + Seq::new(k as nat, |_i: int| '='));
        }
    }
    string_from_chars(&head)
}

} // verus!
