//! The constant folder's settings and the decoding of quoted string
//! literals that it folds.
use vstd::prelude::*;

use crate::errors::lexerdiagnostics::scanstate::{
    dec_val, decimal_value, hex_val, hexadecimal_value, is_dec, is_decimal, is_hex,
    is_hexadecimal, is_whitespace, is_ws,
};
use crate::experimental::constantfoldingoptions::ConstantFoldingOptions;
use crate::experimental::expressionflags::{
    has_e_flag, FLAG_IS_ANONYMOUS_FUNCTION, FLAG_IS_BOOL, FLAG_IS_CONSTANT, FLAG_IS_CONSTANT_TABLE,
    FLAG_IS_DOUBLE, FLAG_IS_FALSEY, FLAG_IS_LONG, FLAG_IS_NIL, FLAG_IS_NUM, FLAG_IS_STR,
    FLAG_IS_STRING_WITH_NUMBER, FLAG_IS_TRUTHY,
};
use crate::luasyntaxoptions::LuaSyntaxOptions;
use crate::text::{push_str, str_chars, string_from_chars};

verus! {

/// The constant folder: the folding settings, and the syntax options the
/// tree was parsed with (they decide how invalid escapes read).
#[derive(Clone)]
pub struct ConstantFolder {
    pub options: ConstantFoldingOptions,
    pub syntax_options: LuaSyntaxOptions,
}

impl ConstantFolder {
    /// Creates a folder with the given settings.
    pub fn new(options: ConstantFoldingOptions, syntax_options: LuaSyntaxOptions) -> (r: Self)
        ensures
            r.options == options,
            r.syntax_options == syntax_options,
    {
        ConstantFolder { options, syntax_options }
    }

    /// The flags of an expression of the given shape (its parentheses taken
    /// off). A table constructor is constant when `is_const_table` says so of
    /// its fields; a string holds a number when its decoded value parses as one.
    pub fn get_flags(&self, shape: ExpressionShape) -> (r: u16)
        ensures
            r == flags_of(shape, self.options.extract_numbers_from_strings),
    {
        let mut flags: u16 = 0;
        match shape {
            ExpressionShape::Nil => {
                flags = flags | FLAG_IS_NIL;
            },
            ExpressionShape::Number { is_double } => {
                if is_double {
                    flags = flags | FLAG_IS_DOUBLE;
                } else {
                    flags = flags | FLAG_IS_LONG;
                }
            },
            ExpressionShape::String { holds_number } => {
                flags = flags | FLAG_IS_STR;
                if self.options.extract_numbers_from_strings && holds_number {
                    flags = flags | FLAG_IS_STRING_WITH_NUMBER;
                }
            },
            ExpressionShape::True | ExpressionShape::False => {
                flags = flags | FLAG_IS_BOOL;
            },
            _ => {},
        }
        if can_convert_to_boolean(shape) {
            if is_falsey(shape) {
                flags = flags | FLAG_IS_FALSEY;
            } else {
                flags = flags | FLAG_IS_TRUTHY;
            }
        }
        if let ExpressionShape::TableConstructor { constant_fields } = shape {
            if constant_fields {
                flags = flags | FLAG_IS_CONSTANT_TABLE;
            }
        }
        if let ExpressionShape::Function = shape {
            flags = flags | FLAG_IS_ANONYMOUS_FUNCTION;
        }
        flags
    }

    /// Whether every key and value of a table constructor is constant, given
    /// the flags of each; a set constructor field never is.
    pub fn is_const_table(&self, fields: &Vec<TableField>) -> (r: bool)
        ensures
            r == (forall|i: int| 0 <= i < fields@.len() ==> #[trigger] field_is_const(fields@[i])),
    {
        let mut i: usize = 0;
        while i < fields.len()
            invariant
                i <= fields@.len(),
                forall|j: int| 0 <= j < i ==> #[trigger] field_is_const(fields@[j]),
            decreases fields@.len() - i,
        {
            let ok = match fields[i] {
                TableField::NameKey { value_flags } => Self::is_const(value_flags),
                TableField::ExpressionKey { key_flags, value_flags } => Self::is_const(key_flags)
                    && Self::is_const(value_flags),
                TableField::NoKey { value_flags } => Self::is_const(value_flags),
                TableField::SetConstructor => false,
            };
            if !ok {
                assert(!field_is_const(fields@[i as int]));
                return false;
            }
            i = i + 1;
        }
        true
    }

    /// Whether an expression with the given flags is a constant.
    pub fn is_const(flags: u16) -> (r: bool)
        ensures
            r == flags_are_const(flags),
    {
        has_e_flag(flags, FLAG_IS_CONSTANT | FLAG_IS_CONSTANT_TABLE)
    }

    /// The 32-bit integer of an expression whose 64-bit integer value is
    /// `int64`, when it lies strictly between `i32::MIN` and `i32::MAX`.
    pub fn try_get_int32(int64: Option<i64>) -> (r: Option<i32>)
        ensures
            r == (match int64 {
                Some(v) => if i32::MIN < v < i32::MAX {
                    Some(v as i32)
                } else {
                    None
                },
                None => None,
            }),
    {
        match int64 {
            Some(converted64) => {
                if converted64 > -2147483648i64 && converted64 < 2147483647i64 {
                    Some(converted64 as i32)
                } else {
                    None
                }
            },
            None => None,
        }
    }

    /// The boolean that an expression of the given shape converts to, if any.
    pub fn try_convert_to_bool(shape: ExpressionShape) -> (r: Option<bool>)
        ensures
            r == bool_of(shape),
    {
        if can_convert_to_boolean(shape) {
            Some(!is_falsey(shape))
        } else {
            None
        }
    }
}

/// What the folder reads of an expression, its parentheses taken off.
#[derive(Debug, Clone, Copy, PartialEq, Eq, Structural)]
pub enum ExpressionShape {
    /// `nil`.
    Nil,
    /// `true`.
    True,
    /// `false`.
    False,
    /// A number literal, written as a float or as an integer.
    Number { is_double: bool },
    /// A string literal, and whether its decoded value parses as a number.
    String { holds_number: bool },
    /// A table constructor, and whether all its fields are constant.
    TableConstructor { constant_fields: bool },
    /// An anonymous function.
    Function,
    /// Anything else.
    Other,
}

/// A field of a table constructor, by the flags of its expressions.
#[derive(Debug, Clone, Copy, PartialEq, Eq, Structural)]
pub enum TableField {
    /// `name = value`.
    NameKey { value_flags: u16 },
    /// `[key] = value`.
    ExpressionKey { key_flags: u16, value_flags: u16 },
    /// `value`.
    NoKey { value_flags: u16 },
    /// A set constructor field.
    SetConstructor,
}

/// Whether flags mark a constant expression or a constant table.
pub open spec fn flags_are_const(flags: u16) -> bool {
    (flags & (FLAG_IS_CONSTANT | FLAG_IS_CONSTANT_TABLE)) != 0
}

/// Whether a table field holds only constant expressions.
pub open spec fn field_is_const(f: TableField) -> bool {
    match f {
        TableField::NameKey { value_flags } => flags_are_const(value_flags),
        TableField::ExpressionKey { key_flags, value_flags } => flags_are_const(key_flags)
            && flags_are_const(value_flags),
        TableField::NoKey { value_flags } => flags_are_const(value_flags),
        TableField::SetConstructor => false,
    }
}

/// The boolean an expression of the given shape converts to: `nil` and
/// `false` are false; `true`, numbers, strings and functions are true.
pub open spec fn bool_of(shape: ExpressionShape) -> Option<bool> {
    match shape {
        ExpressionShape::Nil | ExpressionShape::False => Some(false),
        ExpressionShape::True | ExpressionShape::Number { .. } | ExpressionShape::String { .. }
        | ExpressionShape::Function => Some(true),
        _ => None,
    }
}

/// The flags of an expression of the given shape.
pub open spec fn flags_of(shape: ExpressionShape, extract_numbers_from_strings: bool) -> u16 {
    match shape {
        ExpressionShape::Nil => 0u16 | FLAG_IS_NIL | FLAG_IS_FALSEY,
        ExpressionShape::True => 0u16 | FLAG_IS_BOOL | FLAG_IS_TRUTHY,
        ExpressionShape::False => 0u16 | FLAG_IS_BOOL | FLAG_IS_FALSEY,
        ExpressionShape::Number { is_double } => if is_double {
            0u16 | FLAG_IS_DOUBLE | FLAG_IS_TRUTHY
        } else {
            0u16 | FLAG_IS_LONG | FLAG_IS_TRUTHY
        },
        ExpressionShape::String { holds_number } => if extract_numbers_from_strings
            && holds_number {
            0u16 | FLAG_IS_STR | FLAG_IS_STRING_WITH_NUMBER | FLAG_IS_TRUTHY
        } else {
            0u16 | FLAG_IS_STR | FLAG_IS_TRUTHY
        },
        ExpressionShape::TableConstructor { constant_fields } => if constant_fields {
            0u16 | FLAG_IS_CONSTANT_TABLE
        } else {
            0u16
        },
        ExpressionShape::Function => 0u16 | FLAG_IS_TRUTHY | FLAG_IS_ANONYMOUS_FUNCTION,
        ExpressionShape::Other => 0u16,
    }
}

/// The truth and constancy bits of every flag set that `flags_of` gives.
proof fn lemma_flag_bits(f: u16)
    by (bit_vector)
    ensures
        f == 0u16 | FLAG_IS_NIL | FLAG_IS_FALSEY ==> (f & FLAG_IS_TRUTHY) == 0 && (f
            & FLAG_IS_FALSEY) != 0 && (f & (FLAG_IS_CONSTANT | FLAG_IS_CONSTANT_TABLE)) != 0,
        f == 0u16 | FLAG_IS_BOOL | FLAG_IS_TRUTHY ==> (f & FLAG_IS_TRUTHY) != 0 && (f
            & FLAG_IS_FALSEY) == 0 && (f & (FLAG_IS_CONSTANT | FLAG_IS_CONSTANT_TABLE)) != 0,
        f == 0u16 | FLAG_IS_BOOL | FLAG_IS_FALSEY ==> (f & FLAG_IS_TRUTHY) == 0 && (f
            & FLAG_IS_FALSEY) != 0 && (f & (FLAG_IS_CONSTANT | FLAG_IS_CONSTANT_TABLE)) != 0,
        f == 0u16 | FLAG_IS_DOUBLE | FLAG_IS_TRUTHY ==> (f & FLAG_IS_TRUTHY) != 0 && (f
            & FLAG_IS_FALSEY) == 0 && (f & (FLAG_IS_CONSTANT | FLAG_IS_CONSTANT_TABLE)) != 0,
        f == 0u16 | FLAG_IS_LONG | FLAG_IS_TRUTHY ==> (f & FLAG_IS_TRUTHY) != 0 && (f
            & FLAG_IS_FALSEY) == 0 && (f & (FLAG_IS_CONSTANT | FLAG_IS_CONSTANT_TABLE)) != 0,
        f == 0u16 | FLAG_IS_STR | FLAG_IS_STRING_WITH_NUMBER | FLAG_IS_TRUTHY ==> (f
            & FLAG_IS_TRUTHY) != 0 && (f & FLAG_IS_FALSEY) == 0 && (f & (FLAG_IS_CONSTANT
            | FLAG_IS_CONSTANT_TABLE)) != 0,
        f == 0u16 | FLAG_IS_STR | FLAG_IS_TRUTHY ==> (f & FLAG_IS_TRUTHY) != 0 && (f
            & FLAG_IS_FALSEY) == 0 && (f & (FLAG_IS_CONSTANT | FLAG_IS_CONSTANT_TABLE)) != 0,
        f == 0u16 | FLAG_IS_CONSTANT_TABLE ==> (f & FLAG_IS_TRUTHY) == 0 && (f & FLAG_IS_FALSEY)
            == 0 && (f & (FLAG_IS_CONSTANT | FLAG_IS_CONSTANT_TABLE)) != 0,
        f == 0u16 | FLAG_IS_TRUTHY | FLAG_IS_ANONYMOUS_FUNCTION ==> (f & FLAG_IS_TRUTHY) != 0 && (f
            & FLAG_IS_FALSEY) == 0 && (f & (FLAG_IS_CONSTANT | FLAG_IS_CONSTANT_TABLE)) != 0,
        f == 0u16 ==> (f & FLAG_IS_TRUTHY) == 0 && (f & FLAG_IS_FALSEY) == 0 && (f & (
        FLAG_IS_CONSTANT | FLAG_IS_CONSTANT_TABLE)) == 0,
{
}

/// The truthy and falsey flags of an expression agree with the boolean it
/// converts to, and its flags mark it constant unless it is neither a
/// scalar, a function nor a table of constants.
pub proof fn law_flags_agree_with_shape(shape: ExpressionShape, extract_numbers_from_strings: bool)
    ensures
        ((flags_of(shape, extract_numbers_from_strings) & FLAG_IS_TRUTHY) != 0) <==> bool_of(shape)
            == Some(true),
        ((flags_of(shape, extract_numbers_from_strings) & FLAG_IS_FALSEY) != 0) <==> bool_of(shape)
            == Some(false),
        flags_are_const(flags_of(shape, extract_numbers_from_strings)) <==> !(shape is Other
            || shape == (ExpressionShape::TableConstructor { constant_fields: false })),
{
    lemma_flag_bits(flags_of(shape, extract_numbers_from_strings));
}

fn can_convert_to_boolean(shape: ExpressionShape) -> (r: bool)
    ensures
        r == (bool_of(shape) is Some),
{
    match shape {
        ExpressionShape::Nil | ExpressionShape::True | ExpressionShape::False => true,
        ExpressionShape::Number { .. } | ExpressionShape::String { .. }
        | ExpressionShape::Function => true,
        _ => false,
    }
}

fn is_falsey(shape: ExpressionShape) -> (r: bool)
    requires
        bool_of(shape) is Some,
    ensures
        r == (bool_of(shape) == Some(false)),
{
    match shape {
        ExpressionShape::Nil | ExpressionShape::False => true,
        _ => false,
    }
}

/// Whether two expressions with the given flags can be ordered: both
/// numbers, or both strings.
pub fn can_compare(left_flags: u16, right_flags: u16) -> (r: bool)
    ensures
        r == ((((left_flags & FLAG_IS_NUM) != 0) && ((right_flags & FLAG_IS_NUM) != 0)) || (((
        left_flags & FLAG_IS_STR) != 0) && ((right_flags & FLAG_IS_STR) != 0))),
{
    (has_e_flag(left_flags, FLAG_IS_NUM) && has_e_flag(right_flags, FLAG_IS_NUM)) || (has_e_flag(
        left_flags,
        FLAG_IS_STR,
    ) && has_e_flag(right_flags, FLAG_IS_STR))
}

/// The number of UTF-16 code units of the given characters: two for a
/// character beyond U+FFFF, one for any other.
pub open spec fn utf16_units(s: Seq<char>) -> nat
    decreases s.len(),
{
    if s.len() == 0 {
        0
    } else {
        utf16_units(s.drop_last()) + if s.last() as u32 > 0xFFFF {
            2nat
        } else {
            1nat
        }
    }
}

/// The length of a string in UTF-16 code units, which is what `#` gives of
/// a folded string literal.
pub fn utf16_len(s: &str) -> (r: usize)
    requires
        2 * s@.len() <= usize::MAX,
    ensures
        r == utf16_units(s@),
{
    let chars = str_chars(s);
    let mut n: usize = 0;
    let mut i: usize = 0;
    while i < chars.len()
        invariant
            i <= chars@.len(),
            chars@ == s@,
            2 * s@.len() <= usize::MAX,
            n == utf16_units(chars@.take(i as int)),
            n <= 2 * i,
        decreases chars@.len() - i,
    {
        proof {
            assert(chars@.take(i + 1).drop_last() == chars@.take(i as int));
        }
        if (chars[i] as u32) > 0xFFFF {
            n = n + 2;
        } else {
            n = n + 1;
        }
        i = i + 1;
    }
    proof {
        assert(chars@.take(chars@.len() as int) == chars@);
    }
    n
}

/// The number of whitespace characters that `t` starts with.
pub open spec fn ws_prefix(t: Seq<char>) -> nat
    decreases t.len(),
{
    if t.len() > 0 && is_ws(t[0]) {
        1 + ws_prefix(t.drop_first())
    } else {
        0
    }
}

/// Every character of `d` is a hexadecimal digit.
pub open spec fn all_hex(d: Seq<char>) -> bool {
    forall|i: int| 0 <= i < d.len() ==> is_hex(#[trigger] d[i])
}

/// The value of hexadecimal digits, most significant first.
pub open spec fn hex_digits_value(d: Seq<char>) -> nat
    decreases d.len(),
{
    if d.len() == 0 {
        0
    } else {
        hex_digits_value(d.drop_last()) * 16 + hex_val(d.last())
    }
}

/// The `u32` that `d` spells in base 16, with an optional leading `+`;
/// `None` when it is empty, holds another character or does not fit.
pub open spec fn parse_hex_u32(d: Seq<char>) -> Option<nat> {
    let ds = if d.len() > 0 && d[0] == '+' {
        d.drop_first()
    } else {
        d
    };
    if ds.len() == 0 || !all_hex(ds) || hex_digits_value(ds) > 0xFFFF_FFFF {
        None
    } else {
        Some(hex_digits_value(ds))
    }
}

/// Whether `v` is a Unicode scalar value.
pub open spec fn is_scalar(v: nat) -> bool {
    v < 0xD800 || (0xE000 <= v && v <= 0x10FFFF)
}

/// The index of the first `}` in `b`, or its length.
pub open spec fn close_index(b: Seq<char>) -> nat
    decreases b.len(),
{
    if b.len() == 0 || b[0] == '}' {
        0
    } else {
        1 + close_index(b.drop_first())
    }
}

/// What a `\u{...}` escape with the value `p` decodes to: nothing when the
/// value is missing or beyond the Unicode range, U+FFFD for a surrogate.
pub open spec fn unicode_output(p: Option<nat>) -> Seq<char> {
    match p {
        Some(v) => if v > 0x10FFFF {
            seq![]
        } else if is_scalar(v) {
            seq![v as char]
        } else {
            seq!['\u{FFFD}']
        },
        None => seq![],
    }
}

/// The output of `\u` followed by `t`, and how many characters of `t` it
/// takes: a brace, then everything up to and with the closing brace.
pub open spec fn escape_u(t: Seq<char>) -> (Seq<char>, nat) {
    if t.len() == 0 {
        (seq![], 0)
    } else if t[0] != '{' {
        (seq![], 1)
    } else {
        let body = t.drop_first();
        let j = close_index(body);
        let k = if j < body.len() {
            j + 2
        } else {
            t.len()
        };
        (unicode_output(parse_hex_u32(body.take(j as int))), k)
    }
}

/// The output of `\x` followed by `t`, and how many characters of `t` it
/// takes: up to two hexadecimal digits; a character that ends the digits
/// early is not taken, and reads on after the decoded character.
pub open spec fn escape_x(t: Seq<char>) -> (Seq<char>, nat) {
    if t.len() >= 1 && is_hex(t[0]) {
        if t.len() >= 2 && is_hex(t[1]) {
            (seq![(hex_val(t[0]) * 16 + hex_val(t[1])) as char], 2)
        } else {
            (seq![hex_val(t[0]) as char], 1)
        }
    } else {
        (seq![], 0)
    }
}

/// The output of a backslash, the decimal digit `e` and `t`, and how many
/// characters of `t` it takes: up to two more digits; a value above 255 is
/// dropped, and a character that ends the digits early is not taken, and
/// reads on after the decoded character.
pub open spec fn escape_dec(e: char, t: Seq<char>) -> (Seq<char>, nat) {
    let d = dec_val(e);
    if t.len() >= 1 && is_dec(t[0]) {
        if t.len() >= 2 && is_dec(t[1]) {
            let v = d * 100 + dec_val(t[0]) * 10 + dec_val(t[1]);
            (
                if v <= 255 {
                    seq![v as char]
                } else {
                    seq![]
                },
                2,
            )
        } else {
            (seq![(d * 10 + dec_val(t[0])) as char], 1)
        }
    } else {
        (seq![d as char], 0)
    }
}

/// The output of a backslash, the character `e` and the rest `t`, and how
/// many characters of `t` the escape takes.
#[verifier::opaque]
pub open spec fn escape(e: char, t: Seq<char>, accept_invalid_escapes: bool) -> (Seq<char>, nat) {
    if e == 'a' {
        (seq!['\x07'], 0)
    } else if e == 'b' {
        (seq!['\x08'], 0)
    } else if e == 'f' {
        (seq!['\x0C'], 0)
    } else if e == 'n' {
        (seq!['\n'], 0)
    } else if e == 'r' {
        (seq!['\r'], 0)
    } else if e == 't' {
        (seq!['\t'], 0)
    } else if e == 'v' {
        (seq!['\x0B'], 0)
    } else if e == '\\' || e == '"' || e == '\'' {
        (seq![e], 0)
    } else if e == 'z' {
        (seq![], ws_prefix(t))
    } else if e == 'x' {
        escape_x(t)
    } else if e == 'u' {
        escape_u(t)
    } else if is_dec(e) {
        escape_dec(e, t)
    } else if accept_invalid_escapes {
        (seq![e], 0)
    } else {
        (seq![], 0)
    }
}

proof fn lemma_ws_prefix_len(t: Seq<char>)
    ensures
        ws_prefix(t) <= t.len(),
    decreases t.len(),
{
    if t.len() > 0 && is_ws(t[0]) {
        lemma_ws_prefix_len(t.drop_first());
    }
}

pub(crate) proof fn lemma_close_index_len(b: Seq<char>)
    ensures
        close_index(b) <= b.len(),
    decreases b.len(),
{
    if b.len() > 0 && b[0] != '}' {
        lemma_close_index_len(b.drop_first());
    }
}

/// An escape takes no more characters than there are.
pub proof fn lemma_escape_len(e: char, t: Seq<char>, accept_invalid_escapes: bool)
    ensures
        escape(e, t, accept_invalid_escapes).1 <= t.len(),
{
    reveal(escape);
    lemma_ws_prefix_len(t);
    if t.len() > 0 {
        lemma_close_index_len(t.drop_first());
    }
}

/// The text of a quoted string literal with its escapes decoded; a
/// backslash at the very end stays as it is.
pub open spec fn unescape(s: Seq<char>, accept_invalid_escapes: bool) -> Seq<char>
    decreases s.len(),
{
    if s.len() == 0 {
        seq![]
    } else if s[0] != '\\' {
        seq![s[0]] + unescape(s.drop_first(), accept_invalid_escapes)
    } else if s.len() == 1 {
        seq!['\\']
    } else {
        let t = s.skip(2);
        let step = escape(s[1], t, accept_invalid_escapes);
        proof {
            lemma_escape_len(s[1], t, accept_invalid_escapes);
        }
        step.0 + unescape(t.skip(step.1 as int), accept_invalid_escapes)
    }
}

/// Converts a `u32` to a `char`.
///
/// Wraps `char::from_u32`, which gives `None` exactly for surrogates and
/// values above `0x10FFFF`, and otherwise the character with that value.
#[verifier::external_body]
pub(crate) fn char_from_u32(v: u32) -> (r: Option<char>)
    ensures
        r == (if is_scalar(v as nat) {
            Some(v as char)
        } else {
            None
        }),
{
    char::from_u32(v)
}

proof fn lemma_hex_value_step(d: Seq<char>, i: int)
    requires
        0 <= i < d.len(),
    ensures
        hex_digits_value(d.take(i + 1)) == hex_digits_value(d.take(i)) * 16 + hex_val(d[i]),
{
    assert(d.take(i + 1).drop_last() =~= d.take(i));
}

/// The `u32` spelled in base 16 by `cs[from..to]`, as the standard
/// library's base-16 parsing reads it.
pub(crate) fn parse_hex_range(cs: &Vec<char>, from: usize, to: usize) -> (r: Option<u32>)
    requires
        from <= to <= cs@.len(),
    ensures
        match parse_hex_u32(cs@.subrange(from as int, to as int)) {
            Some(v) => r == Some(v as u32),
            None => r is None,
        },
{
    let ghost d = cs@.subrange(from as int, to as int);
    let mut start = from;
    if from < to && cs[from] == '+' {
        start = from + 1;
    }
    let ghost ds = cs@.subrange(start as int, to as int);
    proof {
        if from < to {
            assert(d[0] == cs@[from as int]);
        }
        if from < to && d[0] == '+' {
            assert(ds =~= d.drop_first());
        } else {
            assert(ds =~= d);
        }
    }
    if start == to {
        return None;
    }
    let mut acc: u64 = 0;
    let mut i: usize = start;
    proof {
        assert(ds.take(0) =~= Seq::<char>::empty());
    }
    while i < to
        invariant
            start <= i <= to <= cs@.len(),
            ds == cs@.subrange(start as int, to as int),
            d == cs@.subrange(from as int, to as int),
            ds == (if d.len() > 0 && d[0] == '+' {
                d.drop_first()
            } else {
                d
            }),
            forall|q: int| 0 <= q < i - start ==> is_hex(#[trigger] ds[q]),
            hex_digits_value(ds.take(i - start)) <= 0xFFFF_FFFF ==> acc == hex_digits_value(
                ds.take(i - start),
            ),
            hex_digits_value(ds.take(i - start)) > 0xFFFF_FFFF ==> acc > 0xFFFF_FFFF,
            acc <= 0xF_FFFF_FFFF,
        decreases to - i,
    {
        let c = cs[i];
        if !is_hexadecimal(c) {
            proof {
                assert(!is_hex(ds[i - start]));
                assert(!all_hex(ds));
            }
            return None;
        }
        let h = hexadecimal_value(c);
        proof {
            lemma_hex_value_step(ds, i - start);
        }
        if acc <= 0xFFFF_FFFF {
            acc = acc * 16 + h;
        }
        i = i + 1;
    }
    proof {
        assert(ds.take(to - start) =~= ds);
        assert(all_hex(ds));
    }
    if acc > 0xFFFF_FFFF {
        None
    } else {
        Some(acc as u32)
    }
}

pub(crate) proof fn lemma_close_index_at(b: Seq<char>, q: int)
    requires
        0 <= q <= b.len(),
        forall|p: int| 0 <= p < q ==> b[p] != '}',
        q == b.len() || b[q] == '}',
    ensures
        close_index(b) == q,
    decreases q,
{
    if q > 0 {
        lemma_close_index_at(b.drop_first(), q - 1);
    }
}

/// Writes what `\u` followed by `cs[j..]` decodes to, and gives how many
/// characters after the `u` it took.
fn push_unicode_escape(cs: &Vec<char>, j: usize, out: &mut Vec<char>) -> (k: usize)
    requires
        j <= cs@.len(),
    ensures
        final(out)@ == old(out)@ + escape_u(cs@.skip(j as int)).0,
        k == escape_u(cs@.skip(j as int)).1,
{
    let ghost t = cs@.skip(j as int);
    if j == cs.len() {
        proof {
            assert(t.len() == 0);
            assert(old(out)@ + seq![] =~= old(out)@);
        }
        return 0;
    }
    if cs[j] != '{' {
        proof {
            assert(out@ + seq![] =~= out@);
        }
        return 1;
    }
    let mut m: usize = j + 1;
    while m < cs.len() && cs[m] != '}'
        invariant
            j + 1 <= m <= cs@.len(),
            forall|p: int| j + 1 <= p < m ==> cs@[p] != '}',
        decreases cs@.len() - m,
    {
        m = m + 1;
    }
    let ghost body = t.drop_first();
    proof {
        assert(body =~= cs@.skip(j + 1));
        lemma_close_index_at(body, m - (j + 1));
        assert(body.take(m - (j + 1)) =~= cs@.subrange(j + 1, m as int));
    }
    let p = parse_hex_range(cs, j + 1, m);
    match p {
        Some(v) => {
            if v > 0x10FFFF {
            } else {
                match char_from_u32(v) {
                    Some(c) => {
                        out.push(c);
                    },
                    None => {
                        out.push('\u{FFFD}');
                    },
                }
            }
        },
        None => {},
    }
    proof {
        assert(old(out)@ + seq![] =~= old(out)@);
    }
    if m < cs.len() {
        m + 1 - j
    } else {
        cs.len() - j
    }
}

/// Writes what `\x` followed by `cs[j..]` decodes to, and gives how many
/// characters after the `x` it took.
fn push_hex_escape(cs: &Vec<char>, j: usize, out: &mut Vec<char>) -> (k: usize)
    requires
        j <= cs@.len(),
    ensures
        final(out)@ == old(out)@ + escape_x(cs@.skip(j as int)).0,
        k == escape_x(cs@.skip(j as int)).1,
{
    let ghost t = cs@.skip(j as int);
    if j < cs.len() && is_hexadecimal(cs[j]) {
        let a = hexadecimal_value(cs[j]);
        if j + 1 < cs.len() && is_hexadecimal(cs[j + 1]) {
            let b = hexadecimal_value(cs[j + 1]);
            out.push(((a * 16 + b) as u8) as char);
            2
        } else {
            out.push((a as u8) as char);
            1
        }
    } else {
        proof {
            assert(old(out)@ + seq![] =~= old(out)@);
        }
        0
    }
}

/// Writes what a backslash, the digit `e` and `cs[j..]` decode to, and
/// gives how many characters after the digit it took.
fn push_decimal_escape(cs: &Vec<char>, j: usize, e: char, out: &mut Vec<char>) -> (k: usize)
    requires
        j <= cs@.len(),
        is_dec(e),
    ensures
        final(out)@ == old(out)@ + escape_dec(e, cs@.skip(j as int)).0,
        k == escape_dec(e, cs@.skip(j as int)).1,
{
    let ghost t = cs@.skip(j as int);
    let d = decimal_value(e);
    if j < cs.len() && is_decimal(cs[j]) {
        let a = decimal_value(cs[j]);
        if j + 1 < cs.len() && is_decimal(cs[j + 1]) {
            let b = decimal_value(cs[j + 1]);
            let v = d * 100 + a * 10 + b;
            if v <= 255 {
                out.push((v as u8) as char);
            } else {
                proof {
                    assert(old(out)@ + seq![] =~= old(out)@);
                }
            }
            2
        } else {
            out.push(((d * 10 + a) as u8) as char);
            1
        }
    } else {
        out.push((d as u8) as char);
        0
    }
}

/// Writes what a backslash, the character `e` and `cs[j..]` decode to, and
/// gives how many characters after `e` it took.
fn push_escape(cs: &Vec<char>, j: usize, e: char, accept_invalid_escapes: bool, out: &mut Vec<char>) -> (k: usize)
    requires
        j <= cs@.len(),
    ensures
        final(out)@ == old(out)@ + escape(e, cs@.skip(j as int), accept_invalid_escapes).0,
        k == escape(e, cs@.skip(j as int), accept_invalid_escapes).1,
{
    let ghost t = cs@.skip(j as int);
    let k: usize;
    if e == 'a' {
        out.push('\x07');
        k = 0;
    } else if e == 'b' {
        out.push('\x08');
        k = 0;
    } else if e == 'f' {
        out.push('\x0C');
        k = 0;
    } else if e == 'n' {
        out.push('\n');
        k = 0;
    } else if e == 'r' {
        out.push('\r');
        k = 0;
    } else if e == 't' {
        out.push('\t');
        k = 0;
    } else if e == 'v' {
        out.push('\x0B');
        k = 0;
    } else if e == '\\' || e == '"' || e == '\'' {
        out.push(e);
        k = 0;
    } else if e == 'z' {
        let mut m: usize = j;
        proof {
            assert(t.skip(0) =~= t);
        }
        while m < cs.len() && is_whitespace(cs[m])
            invariant
                j <= m <= cs@.len(),
                t == cs@.skip(j as int),
                ws_prefix(t) == (m - j) + ws_prefix(cs@.skip(m as int)),
            decreases cs@.len() - m,
        {
            proof {
                assert(cs@.skip(m as int).drop_first() =~= cs@.skip(m + 1));
            }
            m = m + 1;
        }
        proof {
            assert(old(out)@ + seq![] =~= old(out)@);
        }
        k = m - j;
    } else if e == 'x' {
        k = push_hex_escape(cs, j, out);
    } else if e == 'u' {
        k = push_unicode_escape(cs, j, out);
    } else if is_decimal(e) {
        k = push_decimal_escape(cs, j, e, out);
    } else if accept_invalid_escapes {
        out.push(e);
        k = 0;
    } else {
        proof {
            assert(old(out)@ + seq![] =~= old(out)@);
        }
        k = 0;
    }
    proof {
        reveal(escape);
    }
    k
}

/// Decodes the escapes of a quoted string literal's text (without its
/// quotes): `\a \b \f \n \r \t \v \\ \" \'`, `\z` (skips the whitespace
/// after it), `\xXX`, `\u{X...}` and `\ddd`; with `accept_invalid_escapes`
/// any other escaped character stands for itself, else it is dropped.
pub fn unescape_lua_string(text: &str, accept_invalid_escapes: bool) -> (r: String)
    ensures
        r@ == unescape(text@, accept_invalid_escapes),
{
    let cs = str_chars(text);
    let mut out: Vec<char> = Vec::new();
    let mut i: usize = 0;
    proof {
        assert(cs@.skip(0) =~= cs@);
        assert(out@ + unescape(cs@, accept_invalid_escapes) =~= unescape(cs@, accept_invalid_escapes));
    }
    while i < cs.len()
        invariant
            i <= cs@.len(),
            cs@ == text@,
            unescape(cs@, accept_invalid_escapes) == out@ + unescape(
                cs@.skip(i as int),
                accept_invalid_escapes,
            ),
        decreases cs@.len() - i,
    {
        let ghost s = cs@.skip(i as int);
        let ghost before = out@;
        let c = cs[i];
        if c != '\\' {
            out.push(c);
            proof {
                assert(s.drop_first() =~= cs@.skip(i + 1));
                assert(before + (seq![c] + unescape(s.drop_first(), accept_invalid_escapes))
                    =~= out@ + unescape(cs@.skip(i + 1), accept_invalid_escapes));
            }
            i = i + 1;
        } else if i + 1 == cs.len() {
            out.push('\\');
            proof {
                assert(s.len() == 1);
                assert(cs@.skip(i + 1).len() == 0);
                assert(out@ + unescape(cs@.skip(i + 1), accept_invalid_escapes) =~= before
                    + seq!['\\']);
            }
            i = i + 1;
        } else {
            let e = cs[i + 1];
            let k = push_escape(&cs, i + 2, e, accept_invalid_escapes, &mut out);
            proof {
                lemma_escape_len(e, cs@.skip(i + 2), accept_invalid_escapes);
                assert(s.skip(2) =~= cs@.skip(i + 2));
                assert(cs@.skip(i + 2).skip(k as int) =~= cs@.skip(i + 2 + k));
                let step = escape(e, s.skip(2), accept_invalid_escapes);
                assert(before + (step.0 + unescape(cs@.skip(i + 2 + k), accept_invalid_escapes))
                    =~= out@ + unescape(cs@.skip(i + 2 + k), accept_invalid_escapes));
            }
            i = i + 2 + k;
        }
    }
    proof {
        assert(cs@.skip(i as int).len() == 0);
        assert(out@ + seq![] =~= out@);
    }
    string_from_chars(&out)
}

/// A literal operand of a folded concatenation: `true`, `false` or a
/// string, by its decoded value.
pub enum ConcatOperand {
    True,
    False,
    Str(String),
}

/// The text a concatenation operand contributes.
pub open spec fn concat_text(o: ConcatOperand) -> Seq<char> {
    match o {
        ConcatOperand::True => "true"@,
        ConcatOperand::False => "false"@,
        ConcatOperand::Str(s) => s@,
    }
}

/// The folded value of `left .. right` for literal operands: the two texts
/// one after the other.
pub fn fold_concat(left: &ConcatOperand, right: &ConcatOperand) -> (r: String)
    ensures
        r@ == concat_text(*left) + concat_text(*right),
{
    let mut out: Vec<char> = Vec::new();
    match left {
        ConcatOperand::True => push_str(&mut out, "true"),
        ConcatOperand::False => push_str(&mut out, "false"),
        ConcatOperand::Str(s) => push_str(&mut out, s.as_str()),
    }
    match right {
        ConcatOperand::True => push_str(&mut out, "true"),
        ConcatOperand::False => push_str(&mut out, "false"),
        ConcatOperand::Str(s) => push_str(&mut out, s.as_str()),
    }
    string_from_chars(&out)
}

/// Which operand a folded `and` or `or` keeps.
#[derive(Debug, Clone, Copy, PartialEq, Eq, Structural)]
pub enum Side {
    Left,
    Right,
}

/// The operand that `left and right` (or `left or right`) folds to when the
/// left operand's truth is known: `and` keeps the right one after a true
/// left, `or` after a false one; otherwise the left one. `None` when the
/// left operand's truth is not known.
pub fn fold_logical(is_and: bool, left: ExpressionShape) -> (r: Option<Side>)
    ensures
        r == (match bool_of(left) {
            Some(b) => Some(if b == is_and {
                Side::Right
            } else {
                Side::Left
            }),
            None => None,
        }),
{
    match ConstantFolder::try_convert_to_bool(left) {
        Some(b) => {
            if b == is_and {
                Some(Side::Right)
            } else {
                Some(Side::Left)
            }
        },
        None => None,
    }
}

/// The ordinal comparison of two byte strings: negative, zero or positive
/// as `a` sorts before, with or after `b` (a proper prefix sorts first).
pub open spec fn bytes_order(a: Seq<u8>, b: Seq<u8>) -> int
    decreases a.len(),
{
    if a.len() == 0 && b.len() == 0 {
        0
    } else if a.len() == 0 {
        -1
    } else if b.len() == 0 {
        1
    } else if a[0] < b[0] {
        -1
    } else if a[0] > b[0] {
        1
    } else {
        bytes_order(a.drop_first(), b.drop_first())
    }
}

/// Compares two strings' bytes ordinally, as the folder orders string
/// literals: -1, 0 or 1.
pub fn compare_bytes(a: &[u8], b: &[u8]) -> (r: i32)
    ensures
        r == bytes_order(a@, b@),
{
    let mut i: usize = 0;
    proof {
        assert(a@.skip(0) =~= a@);
        assert(b@.skip(0) =~= b@);
    }
    while i < a.len() && i < b.len()
        invariant
            i <= a@.len(),
            i <= b@.len(),
            a@.take(i as int) == b@.take(i as int),
            bytes_order(a@, b@) == bytes_order(a@.skip(i as int), b@.skip(i as int)),
        decreases a@.len() - i,
    {
        proof {
            assert(a@.skip(i as int).drop_first() =~= a@.skip(i + 1));
            assert(b@.skip(i as int).drop_first() =~= b@.skip(i + 1));
            assert(a@.skip(i as int)[0] == a@[i as int]);
            assert(b@.skip(i as int)[0] == b@[i as int]);
        }
        if a[i] < b[i] {
            return -1;
        }
        if a[i] > b[i] {
            return 1;
        }
        i = i + 1;
        proof {
            assert(a@.take(i as int) =~= a@.take(i - 1).push(a@[i - 1]));
            assert(b@.take(i as int) =~= b@.take(i - 1).push(b@[i - 1]));
        }
    }
    proof {
        if i == a@.len() {
            assert(a@.skip(i as int) =~= Seq::<u8>::empty());
        }
        if i == b@.len() {
            assert(b@.skip(i as int) =~= Seq::<u8>::empty());
        }
    }
    if a.len() == b.len() {
        0
    } else if i == a.len() {
        -1
    } else {
        1
    }
}

/// Compares two integers, as the folder orders integer literals: -1, 0 or 1.
pub fn compare_longs(a: i64, b: i64) -> (r: i32)
    ensures
        r == (if a < b {
            -1int
        } else if a > b {
            1int
        } else {
            0int
        }),
{
    if a < b {
        -1
    } else if a > b {
        1
    } else {
        0
    }
}

} // verus!
