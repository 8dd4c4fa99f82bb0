//! Indented JSON text: a two-space indent, `"key": value` on its own line,
//! strings escaping `"`, `'`, `&`, `<`, `>`, `+` and every character outside
//! printable ASCII as `\uXXXX` (a character above U+FFFF as its UTF-16
//! surrogate pair; only `\n`, `\r`, `\t`, `\b`, `\f` and `\\`
//! keep their short forms), and no trailing line break.
use vstd::prelude::*;

use crate::text::str_chars;

verus! {

/// A JSON value.
pub enum Json {
    Object(Vec<(String, Json)>),
    Array(Vec<Json>),
    String(String),
    Number(i64),
    Bool(bool),
}

/// The decimal digits of `n`, most significant first.
pub open spec fn dec_bytes(n: nat) -> Seq<u8>
    decreases n,
{
    if n < 10 {
        seq![(48 + n) as u8]
    } else {
        dec_bytes(n / 10) + seq![(48 + n % 10) as u8]
    }
}

/// An upper-case hexadecimal digit.
pub open spec fn hex_digit(d: nat) -> u8 {
    if d < 10 {
        (48 + d) as u8
    } else {
        (55 + d) as u8
    }
}

/// The upper-case hexadecimal digits of `n`, most significant first.
pub open spec fn hex_text(n: nat) -> Seq<u8>
    decreases n,
{
    if n < 16 {
        seq![hex_digit(n)]
    } else {
        hex_text(n / 16) + seq![hex_digit(n % 16)]
    }
}

/// `\u` and the code in at least four upper-case hexadecimal digits.
pub open spec fn unicode_escape(code: nat) -> Seq<u8> {
    let h = hex_text(code);
    let pad = if h.len() < 4 {
        (4 - h.len()) as nat
    } else {
        0nat
    };
    seq![92u8, 117u8] + Seq::new(pad, |i: int| 48u8) + h
}

/// The bytes for one character of a string.
pub open spec fn char_json(c: char) -> Seq<u8> {
    let code = c as u32;
    if c == '"' || c == '\'' || c == '&' || c == '<' || c == '>' || c == '+' {
        unicode_escape(code as nat)
    } else if c == '\\' {
        seq![92u8, 92u8]
    } else if c == '\n' {
        seq![92u8, 110u8]
    } else if c == '\r' {
        seq![92u8, 114u8]
    } else if c == '\t' {
        seq![92u8, 116u8]
    } else if code == 8 {
        seq![92u8, 98u8]
    } else if code == 12 {
        seq![92u8, 102u8]
    } else if code > 0xFFFF {
        surrogate_pair_escape(code as nat)
    } else if !(0x20 <= code <= 0x7E) {
        unicode_escape(code as nat)
    } else {
        seq![code as u8]
    }
}

/// A character above U+FFFF as the escapes of its UTF-16 surrogate pair.
pub open spec fn surrogate_pair_escape(code: nat) -> Seq<u8> {
    let v = (code - 0x10000) as nat;
    unicode_escape(0xD800 + v / 0x400) + unicode_escape(0xDC00 + v % 0x400)
}

/// The bytes for the characters of a string, without the quotes.
pub open spec fn chars_json(s: Seq<char>) -> Seq<u8>
    decreases s.len(),
{
    if s.len() == 0 {
        seq![]
    } else {
        chars_json(s.drop_last()) + char_json(s.last())
    }
}

/// A quoted string.
pub open spec fn string_json(s: Seq<char>) -> Seq<u8> {
    seq![34u8] + chars_json(s) + seq![34u8]
}

/// `2 * depth` spaces.
pub open spec fn indent_text(depth: nat) -> Seq<u8> {
    Seq::new(2 * depth, |i: int| 32u8)
}

/// A number in decimal, with `-` before a negative one.
pub open spec fn number_json(n: i64) -> Seq<u8> {
    if n < 0 {
        seq![45u8] + dec_bytes((-n) as nat)
    } else {
        dec_bytes(n as nat)
    }
}

/// The text of a value written at nesting depth `depth`.
pub open spec fn json_text(j: Json, depth: nat) -> Seq<u8>
    decreases j, 0nat,
{
    match j {
        Json::Object(entries) => if entries@.len() == 0 {
            seq![123u8, 125u8]
        } else {
            seq![123u8] + members_text(entries@, depth, 0) + seq![10u8] + indent_text(depth) + seq![
                125u8,
            ]
        },
        Json::Array(items) => if items@.len() == 0 {
            seq![91u8, 93u8]
        } else {
            seq![91u8] + items_text(items@, depth, 0) + seq![10u8] + indent_text(depth) + seq![93u8]
        },
        Json::String(s) => string_json(s@),
        Json::Number(n) => number_json(n),
        Json::Bool(b) => if b {
            seq![116u8, 114u8, 117u8, 101u8]
        } else {
            seq![102u8, 97u8, 108u8, 115u8, 101u8]
        },
    }
}

/// The members of an object from index `i` on, each on its own line after a
/// comma (but for the first).
pub open spec fn members_text(entries: Seq<(String, Json)>, depth: nat, i: nat) -> Seq<u8>
    decreases entries, entries.len() - i,
{
    if i >= entries.len() {
        seq![]
    } else {
        let sep = if i > 0 {
            seq![44u8, 10u8]
        } else {
            seq![10u8]
        };
        proof {
            assert(decreases_to!(entries => entries[i as int]));
        }
        sep + indent_text(depth + 1) + string_json(entries[i as int].0@) + seq![58u8, 32u8]
            + json_text(entries[i as int].1, depth + 1) + members_text(entries, depth, i + 1)
    }
}

/// The items of an array from index `i` on, each on its own line after a
/// comma (but for the first).
pub open spec fn items_text(items: Seq<Json>, depth: nat, i: nat) -> Seq<u8>
    decreases items, items.len() - i,
{
    if i >= items.len() {
        seq![]
    } else {
        let sep = if i > 0 {
            seq![44u8, 10u8]
        } else {
            seq![10u8]
        };
        proof {
            assert(decreases_to!(items => items[i as int]));
        }
        sep + indent_text(depth + 1) + json_text(items[i as int], depth + 1) + items_text(
            items,
            depth,
            i + 1,
        )
    }
}

/// The deepest nesting of objects and arrays in a value.
pub open spec fn json_depth(j: Json) -> nat
    decreases j, 0nat,
{
    match j {
        Json::Object(entries) => 1 + members_depth(entries@, 0),
        Json::Array(items) => 1 + items_depth(items@, 0),
        _ => 0,
    }
}

pub open spec fn members_depth(entries: Seq<(String, Json)>, i: nat) -> nat
    decreases entries, entries.len() - i,
{
    if i >= entries.len() {
        0
    } else {
        proof {
            assert(decreases_to!(entries => entries[i as int]));
        }
        let a = json_depth(entries[i as int].1);
        let b = members_depth(entries, i + 1);
        if a > b {
            a
        } else {
            b
        }
    }
}

pub open spec fn items_depth(items: Seq<Json>, i: nat) -> nat
    decreases items, items.len() - i,
{
    if i >= items.len() {
        0
    } else {
        proof {
            assert(decreases_to!(items => items[i as int]));
        }
        let a = json_depth(items[i as int]);
        let b = items_depth(items, i + 1);
        if a > b {
            a
        } else {
            b
        }
    }
}

proof fn lemma_members_depth(entries: Seq<(String, Json)>, i: nat, k: int)
    requires
        i <= k < entries.len(),
    ensures
        json_depth(entries[k].1) <= members_depth(entries, i),
    decreases k - i,
{
    if i < k {
        lemma_members_depth(entries, i + 1, k);
    }
}

proof fn lemma_items_depth(items: Seq<Json>, i: nat, k: int)
    requires
        i <= k < items.len(),
    ensures
        json_depth(items[k]) <= items_depth(items, i),
    decreases k - i,
{
    if i < k {
        lemma_items_depth(items, i + 1, k);
    }
}

/// Appends the decimal digits of `n`.
fn push_dec_bytes(out: &mut Vec<u8>, n: u64)
    ensures
        final(out)@ == old(out)@ + dec_bytes(n as nat),
    decreases n,
{
    if n >= 10 {
        push_dec_bytes(out, n / 10);
    }
    out.push(48u8 + (n % 10) as u8);
}

/// The upper-case hexadecimal digits of `n`.
fn hex_bytes(n: u32) -> (r: Vec<u8>)
    ensures
        r@ == hex_text(n as nat),
{
    let d0 = n % 16;
    let mut v: Vec<u8> = vec![if d0 < 10 {
        48u8 + d0 as u8
    } else {
        55u8 + d0 as u8
    }];
    let mut s: u32 = n / 16;
    while s > 0
        invariant
            s > 0 ==> hex_text(n as nat) == hex_text(s as nat) + v@,
            s == 0 ==> hex_text(n as nat) == v@,
        decreases s,
    {
        let d = s % 16;
        let b = if d < 10 {
            48u8 + d as u8
        } else {
            55u8 + d as u8
        };
        let ghost old_v = v@;
        v.insert(0, b);
        proof {
            assert(v@ =~= seq![b] + old_v);
            assert(b == hex_digit((s % 16) as nat));
            if s < 16 {
                assert(hex_text(n as nat) =~= v@);
            } else {
                assert(hex_text(n as nat) =~= hex_text((s / 16) as nat) + v@);
            }
        }
        s = s / 16;
    }
    v
}

/// Appends `\u` and the code in at least four hexadecimal digits.
fn push_unicode_escape(out: &mut Vec<u8>, code: u32)
    ensures
        final(out)@ == old(out)@ + unicode_escape(code as nat),
{
    let h = hex_bytes(code);
    out.push(92u8);
    out.push(117u8);
    let ghost mid = out@;
    let pad: usize = if h.len() < 4 {
        4 - h.len()
    } else {
        0
    };
    let mut i: usize = 0;
    while i < pad
        invariant
            i <= pad,
            out@ == mid + Seq::new(i as nat, |k: int| 48u8),
        decreases pad - i,
    {
        out.push(48u8);
        i = i + 1;
        proof {
            assert(out@ =~= mid + Seq::new(i as nat, |k: int| 48u8));
        }
    }
    let ghost mid2 = out@;
    let mut j: usize = 0;
    while j < h.len()
        invariant
            j <= h@.len(),
            out@ == mid2 + h@.take(j as int),
        decreases h@.len() - j,
    {
        out.push(h[j]);
        j = j + 1;
        proof {
            assert(out@ =~= mid2 + h@.take(j as int));
        }
    }
    proof {
        assert(h@.take(h@.len() as int) =~= h@);
        assert(out@ =~= old(out)@ + unicode_escape(code as nat));
    }
}

/// Appends the bytes for one character of a string.
fn push_char_json(out: &mut Vec<u8>, c: char)
    ensures
        final(out)@ == old(out)@ + char_json(c),
{
    let code = c as u32;
    if c == '"' || c == '\'' || c == '&' || c == '<' || c == '>' || c == '+' {
        push_unicode_escape(out, code);
    } else if c == '\\' {
        out.push(92u8);
        out.push(92u8);
    } else if c == '\n' {
        out.push(92u8);
        out.push(110u8);
    } else if c == '\r' {
        out.push(92u8);
        out.push(114u8);
    } else if c == '\t' {
        out.push(92u8);
        out.push(116u8);
    } else if code == 8 {
        out.push(92u8);
        out.push(98u8);
    } else if code == 12 {
        out.push(92u8);
        out.push(102u8);
    } else if code > 0xFFFF {
        let v = code - 0x10000;
        push_unicode_escape(out, 0xD800 + v / 0x400);
        push_unicode_escape(out, 0xDC00 + v % 0x400);
    } else if !(0x20 <= code && code <= 0x7E) {
        push_unicode_escape(out, code);
    } else {
        out.push(code as u8);
    }
    proof {
        assert(out@ =~= old(out)@ + char_json(c));
    }
}

/// Appends a quoted string.
fn write_string(s: &str, out: &mut Vec<u8>)
    ensures
        final(out)@ == old(out)@ + string_json(s@),
{
    let chars = str_chars(s);
    out.push(34u8);
    let ghost mid = out@;
    let mut k: usize = 0;
    while k < chars.len()
        invariant
            k <= chars@.len(),
            out@ == mid + chars_json(chars@.take(k as int)),
        decreases chars@.len() - k,
    {
        push_char_json(out, chars[k]);
        proof {
            assert(chars@.take(k + 1).drop_last() =~= chars@.take(k as int));
            assert(chars@.take(k + 1).last() == chars@[k as int]);
        }
        k = k + 1;
    }
    out.push(34u8);
    proof {
        assert(chars@.take(chars@.len() as int) =~= chars@);
        assert(out@ =~= old(out)@ + string_json(s@));
    }
}

/// Appends `2 * depth` spaces.
fn indent(depth: usize, out: &mut Vec<u8>)
    requires
        depth <= usize::MAX / 2,
    ensures
        final(out)@ == old(out)@ + indent_text(depth as nat),
{
    let n = depth * 2;
    let mut i: usize = 0;
    while i < n
        invariant
            i <= n,
            n == 2 * depth,
            out@ == old(out)@ + Seq::new(i as nat, |k: int| 32u8),
        decreases n - i,
    {
        out.push(32u8);
        i = i + 1;
        proof {
            assert(out@ =~= old(out)@ + Seq::new(i as nat, |k: int| 32u8));
        }
    }
}

/// Appends a number.
fn write_number(n: i64, out: &mut Vec<u8>)
    ensures
        final(out)@ == old(out)@ + number_json(n),
{
    if n < 0 {
        out.push(45u8);
        let m: u64 = if n == i64::MIN {
            0x8000_0000_0000_0000
        } else {
            (-n) as u64
        };
        push_dec_bytes(out, m);
    } else {
        push_dec_bytes(out, n as u64);
    }
}

/// Appends a value written at nesting depth `depth`.
fn write_value(value: &Json, depth: usize, out: &mut Vec<u8>)
    requires
        depth + json_depth(*value) <= usize::MAX / 4,
    ensures
        final(out)@ == old(out)@ + json_text(*value, depth as nat),
    decreases value,
{
    match value {
        Json::Object(entries) => {
            if entries.len() == 0 {
                out.push(123u8);
                out.push(125u8);
                return ;
            }
            out.push(123u8);
            let ghost target = old(out)@ + seq![123u8] + members_text(entries@, depth as nat, 0);
            let mut i: usize = 0;
            while i < entries.len()
                invariant
                    i <= entries@.len(),
                    depth + json_depth(*value) <= usize::MAX / 4,
                    *value == Json::Object(*entries),
                    out@ + members_text(entries@, depth as nat, i as nat) == target,
                decreases entries@.len() - i,
            {
                proof {
                    lemma_members_depth(entries@, 0, i as int);
                }
                if i > 0 {
                    out.push(44u8);
                }
                out.push(10u8);
                indent(depth + 1, out);
                write_string(entries[i].0.as_str(), out);
                out.push(58u8);
                out.push(32u8);
                proof {
                    assert(decreases_to!(*value => entries@[i as int].1));
                }
                write_value(&entries[i].1, depth + 1, out);
                proof {
                    assert(target =~= out@ + members_text(entries@, depth as nat, (i + 1) as nat));
                }
                i = i + 1;
            }
            out.push(10u8);
            indent(depth, out);
            out.push(125u8);
            proof {
                assert(out@ =~= old(out)@ + json_text(*value, depth as nat));
            }
        },
        Json::Array(items) => {
            if items.len() == 0 {
                out.push(91u8);
                out.push(93u8);
                return ;
            }
            out.push(91u8);
            let ghost target = old(out)@ + seq![91u8] + items_text(items@, depth as nat, 0);
            let mut i: usize = 0;
            while i < items.len()
                invariant
                    i <= items@.len(),
                    depth + json_depth(*value) <= usize::MAX / 4,
                    *value == Json::Array(*items),
                    out@ + items_text(items@, depth as nat, i as nat) == target,
                decreases items@.len() - i,
            {
                proof {
                    lemma_items_depth(items@, 0, i as int);
                }
                if i > 0 {
                    out.push(44u8);
                }
                out.push(10u8);
                indent(depth + 1, out);
                proof {
                    assert(decreases_to!(*value => items@[i as int]));
                }
                write_value(&items[i], depth + 1, out);
                proof {
                    assert(target =~= out@ + items_text(items@, depth as nat, (i + 1) as nat));
                }
                i = i + 1;
            }
            out.push(10u8);
            indent(depth, out);
            out.push(93u8);
            proof {
                assert(out@ =~= old(out)@ + json_text(*value, depth as nat));
            }
        },
        Json::String(s) => write_string(s.as_str(), out),
        Json::Number(n) => write_number(*n, out),
        Json::Bool(b) => {
            if *b {
                out.push(116u8);
                out.push(114u8);
                out.push(117u8);
                out.push(101u8);
            } else {
                out.push(102u8);
                out.push(97u8);
                out.push(108u8);
                out.push(115u8);
                out.push(101u8);
            }
            proof {
                assert(out@ =~= old(out)@ + json_text(*value, depth as nat));
            }
        },
    }
}

/// The indented text of a value, as bytes.
pub fn render(root: &Json) -> (r: Vec<u8>)
    requires
        json_depth(*root) <= usize::MAX / 4,
    ensures
        r@ == json_text(*root, 0),
{
    let mut out: Vec<u8> = Vec::new();
    write_value(root, 0, &mut out);
    proof {
        assert(out@ =~= json_text(*root, 0));
    }
    out
}

} // verus!
