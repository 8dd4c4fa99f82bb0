//! What the constant folder does with a binary expression whose operands
//! it has read: which operator folds, and to what, for everything but the
//! floating-point arithmetic, which is left to the caller.
use vstd::prelude::*;

use crate::experimental::constantfolder::{
    utf16_len, utf16_units, bool_of, concat_text, flags_of, fold_concat, fold_logical, ConcatOperand, ConstantFolder,
    ExpressionShape, Side,
};
use crate::experimental::expressionflags::{
    has_e_flag, FLAG_IS_BOOL, FLAG_IS_DOUBLE, FLAG_IS_LONG, FLAG_IS_NIL, FLAG_IS_NUM,
    FLAG_IS_SCALAR, FLAG_IS_STR, FLAG_IS_STRING_WITH_NUMBER, FLAG_IS_TRUTHY,
};
use crate::operations::binaryoperatorkind::BinaryOperatorKind;
use crate::operations::unaryoperatorkind::UnaryOperatorKind;
use crate::text::str_chars;

verus! {

/// The numeric value of an operand, as the folder reads it: none, an
/// integer, or a floating-point number (whose value the caller holds).
#[derive(Debug, Clone, Copy, PartialEq, Eq, Structural)]
pub enum NumberValue {
    NotNumber,
    Long(i64),
    Double,
}

/// What the folder reads of an operand: its shape (parentheses taken off),
/// its numeric value, its value as a 64-bit integer if it has one, its
/// decoded string value if it is a string, and, when the operand itself (not
/// parenthesized) is `true`, `false` or a string, the text it concatenates.
pub struct FoldOperand {
    pub shape: ExpressionShape,
    pub number: NumberValue,
    pub int64: Option<i64>,
    pub string: Option<String>,
    pub concat: Option<ConcatOperand>,
}

/// What a binary expression folds to.
pub enum BinaryFold {
    /// It stays as it is.
    Keep,
    /// An integer literal.
    Long(i64),
    /// A boolean literal.
    Bool(bool),
    /// A string literal.
    Str(String),
    /// Its left operand.
    Left,
    /// Its right operand.
    Right,
    /// The folded value is the floating-point result of the operator.
    NeedsFloat,
}

/// The view of a fold.
pub enum FoldView {
    Keep,
    Long(i64),
    Bool(bool),
    Str(Seq<char>),
    Left,
    Right,
    NeedsFloat,
}

impl View for BinaryFold {
    type V = FoldView;

    open spec fn view(&self) -> FoldView {
        match self {
            BinaryFold::Keep => FoldView::Keep,
            BinaryFold::Long(v) => FoldView::Long(*v),
            BinaryFold::Bool(b) => FoldView::Bool(*b),
            BinaryFold::Str(s) => FoldView::Str(s@),
            BinaryFold::Left => FoldView::Left,
            BinaryFold::Right => FoldView::Right,
            BinaryFold::NeedsFloat => FoldView::NeedsFloat,
        }
    }
}

/// Whether `flags` has any bit of `wanted`.
pub open spec fn has(flags: u16, wanted: u16) -> bool {
    (flags & wanted) != 0
}

/// The ordering of two character sequences by code point, which is the
/// ordinal order of their UTF-8 bytes: -1, 0 or 1.
pub open spec fn chars_order(a: Seq<char>, b: Seq<char>) -> int
    decreases a.len(),
{
    if a.len() == 0 && b.len() == 0 {
        0
    } else if a.len() == 0 {
        -1
    } else if b.len() == 0 {
        1
    } else if (a[0] as u32) < (b[0] as u32) {
        -1
    } else if (a[0] as u32) > (b[0] as u32) {
        1
    } else {
        chars_order(a.drop_first(), b.drop_first())
    }
}

/// The remainder of `a` by `b` (not zero), wrapping at the edge of `i64`.
pub open spec fn wrapping_rem_spec(a: i64, b: i64) -> i64 {
    match a.checked_rem(b) {
        Some(v) => v,
        None => 0,
    }
}

/// The value of a binary integer operation.
pub open spec fn long_op(op: BinaryOperatorKind, a: i64, b: i64) -> i64 {
    match op {
        BinaryOperatorKind::Addition => a.wrapping_add(b),
        BinaryOperatorKind::Subtraction => a.wrapping_sub(b),
        BinaryOperatorKind::Multiplication => a.wrapping_mul(b),
        BinaryOperatorKind::BitwiseAnd => a & b,
        BinaryOperatorKind::BitwiseOr => a | b,
        _ => a ^ b,
    }
}

/// Whether two scalar operands are equal, or `None` when that takes
/// floating-point values: both `nil`; equal strings; booleans of the same
/// truth; equal integers; anything else differs.
pub open spec fn equals_spec(lf: u16, rf: u16, l: FoldOperand, r: FoldOperand) -> Option<bool> {
    if has(lf, FLAG_IS_NIL) && has(rf, FLAG_IS_NIL) {
        Some(true)
    } else if has(lf, FLAG_IS_STR) && has(rf, FLAG_IS_STR) {
        Some(l.string.unwrap()@ == r.string.unwrap()@)
    } else if has(lf, FLAG_IS_BOOL) && has(rf, FLAG_IS_BOOL) {
        Some(has(lf, FLAG_IS_TRUTHY) == has(rf, FLAG_IS_TRUTHY))
    } else if l.number != NumberValue::NotNumber && r.number != NumberValue::NotNumber {
        match (l.number, r.number) {
            (NumberValue::Long(a), NumberValue::Long(b)) => Some(a == b),
            _ => None,
        }
    } else {
        Some(false)
    }
}

/// The ordering of two comparable operands (-1, 0, 1), or `None` when it
/// takes floating-point values.
pub open spec fn compare_spec(lf: u16, rf: u16, l: FoldOperand, r: FoldOperand) -> Option<int> {
    if has(lf, FLAG_IS_DOUBLE) && has(rf, FLAG_IS_DOUBLE) {
        None
    } else if has(lf, FLAG_IS_LONG) && has(rf, FLAG_IS_LONG) {
        match (l.number, r.number) {
            (NumberValue::Long(a), NumberValue::Long(b)) => Some(
                if a < b {
                    -1int
                } else if a > b {
                    1int
                } else {
                    0int
                },
            ),
            _ => None,
        }
    } else if (has(lf, FLAG_IS_DOUBLE) && has(rf, FLAG_IS_LONG)) || (has(lf, FLAG_IS_LONG) && has(
        rf,
        FLAG_IS_DOUBLE,
    )) {
        None
    } else {
        Some(chars_order(l.string.unwrap()@, r.string.unwrap()@))
    }
}

/// Whether the comparison of two operands is one of the cases the folder
/// handles: both floats, both integers, a float and an integer, or two
/// strings.
pub open spec fn comparison_defined(lf: u16, rf: u16) -> bool {
    (has(lf, FLAG_IS_DOUBLE) && has(rf, FLAG_IS_DOUBLE)) || (has(lf, FLAG_IS_LONG) && has(
        rf,
        FLAG_IS_LONG,
    )) || (has(lf, FLAG_IS_DOUBLE) && has(rf, FLAG_IS_LONG)) || (has(lf, FLAG_IS_LONG) && has(
        rf,
        FLAG_IS_DOUBLE,
    )) || (has(lf, FLAG_IS_STR) && has(rf, FLAG_IS_STR))
}

/// The operand is what the folder's reading gives: a string has its
/// decoded value.
pub open spec fn operand_ok(flags: u16, o: FoldOperand) -> bool {
    has(flags, FLAG_IS_STR) ==> o.string is Some
}

/// A concatenation of two strings or booleans (by their flags) has both
/// operands written as literals themselves, not in parentheses.
pub open spec fn concat_ok(lf: u16, rf: u16, l: FoldOperand, r: FoldOperand) -> bool {
    has(lf, FLAG_IS_STR | FLAG_IS_BOOL) && has(rf, FLAG_IS_STR | FLAG_IS_BOOL) ==> l.concat is Some
        && r.concat is Some
}

/// The fold of `left op right`.
pub open spec fn fold_binary_spec(
    extract: bool,
    op: BinaryOperatorKind,
    l: FoldOperand,
    r: FoldOperand,
) -> FoldView {
    let lf = flags_of(l.shape, extract);
    let rf = flags_of(r.shape, extract);
    let both_num = l.number != NumberValue::NotNumber && r.number != NumberValue::NotNumber;
    match op {
        BinaryOperatorKind::Addition | BinaryOperatorKind::Subtraction
        | BinaryOperatorKind::Multiplication => if !both_num {
            FoldView::Keep
        } else {
            match (l.number, r.number) {
                (NumberValue::Long(a), NumberValue::Long(b)) => FoldView::Long(long_op(op, a, b)),
                _ => FoldView::NeedsFloat,
            }
        },
        BinaryOperatorKind::Division | BinaryOperatorKind::Exponentiation => if both_num {
            FoldView::NeedsFloat
        } else {
            FoldView::Keep
        },
        BinaryOperatorKind::Modulus => if !both_num {
            FoldView::Keep
        } else {
            match (l.number, r.number) {
                (NumberValue::Long(a), NumberValue::Long(b)) => if b == 0 {
                    FoldView::Keep
                } else {
                    FoldView::Long(wrapping_rem_spec(a, b))
                },
                _ => FoldView::NeedsFloat,
            }
        },
        BinaryOperatorKind::StringConcatenation => if has(lf, FLAG_IS_STR | FLAG_IS_BOOL) && has(
            rf,
            FLAG_IS_STR | FLAG_IS_BOOL,
        ) {
            FoldView::Str(concat_text(l.concat.unwrap()) + concat_text(r.concat.unwrap()))
        } else {
            FoldView::Keep
        },
        BinaryOperatorKind::Equals | BinaryOperatorKind::NotEquals => if has(lf, FLAG_IS_SCALAR)
            && has(rf, FLAG_IS_SCALAR) {
            match equals_spec(lf, rf, l, r) {
                Some(e) => FoldView::Bool(
                    if op == BinaryOperatorKind::Equals {
                        e
                    } else {
                        !e
                    },
                ),
                None => FoldView::NeedsFloat,
            }
        } else {
            FoldView::Keep
        },
        BinaryOperatorKind::LessThan | BinaryOperatorKind::LessThanOrEqual
        | BinaryOperatorKind::GreaterThan | BinaryOperatorKind::GreaterThanOrEqual => if (has(
            lf,
            FLAG_IS_NUM,
        ) && has(rf, FLAG_IS_NUM)) || (has(lf, FLAG_IS_STR) && has(rf, FLAG_IS_STR)) {
            match compare_spec(lf, rf, l, r) {
                Some(c) => FoldView::Bool(
                    match op {
                        BinaryOperatorKind::LessThan => c < 0,
                        BinaryOperatorKind::LessThanOrEqual => c <= 0,
                        BinaryOperatorKind::GreaterThan => c > 0,
                        _ => c >= 0,
                    },
                ),
                None => FoldView::NeedsFloat,
            }
        } else {
            FoldView::Keep
        },
        BinaryOperatorKind::And | BinaryOperatorKind::Or => match bool_of(l.shape) {
            Some(b) => if b == (op == BinaryOperatorKind::And) {
                FoldView::Right
            } else {
                FoldView::Left
            },
            None => FoldView::Keep,
        },
        BinaryOperatorKind::BitwiseAnd | BinaryOperatorKind::BitwiseOr
        | BinaryOperatorKind::ExclusiveOr => if has(lf, FLAG_IS_NUM) && has(rf, FLAG_IS_NUM) {
            match (l.int64, r.int64) {
                (Some(a), Some(b)) => if has(lf, FLAG_IS_LONG) || has(rf, FLAG_IS_LONG) {
                    FoldView::Long(long_op(op, a, b))
                } else {
                    FoldView::NeedsFloat
                },
                _ => FoldView::Keep,
            }
        } else {
            FoldView::Keep
        },
        BinaryOperatorKind::LeftShift | BinaryOperatorKind::RightShift => if has(lf, FLAG_IS_NUM)
            && has(rf, FLAG_IS_NUM) {
            match (l.int64, r.int64) {
                (Some(a), Some(b)) => if i32::MIN < b < i32::MAX {
                    if has(lf, FLAG_IS_LONG) || has(rf, FLAG_IS_LONG) {
                        FoldView::Long(
                            if op == BinaryOperatorKind::RightShift {
                                a.wrapping_shr((b as i32) as u32)
                            } else {
                                a.wrapping_shl((b as i32) as u32)
                            },
                        )
                    } else {
                        FoldView::NeedsFloat
                    }
                } else {
                    FoldView::Keep
                },
                _ => FoldView::Keep,
            }
        } else {
            FoldView::Keep
        },
        _ => FoldView::Keep,
    }
}

fn compare_chars(a: &str, b: &str) -> (r: i32)
    ensures
        r == chars_order(a@, b@),
{
    let x = str_chars(a);
    let y = str_chars(b);
    let mut i: usize = 0;
    proof {
        assert(x@.skip(0) =~= x@);
        assert(y@.skip(0) =~= y@);
    }
    while i < x.len() && i < y.len()
        invariant
            i <= x@.len(),
            i <= y@.len(),
            x@ == a@,
            y@ == b@,
            chars_order(a@, b@) == chars_order(x@.skip(i as int), y@.skip(i as int)),
        decreases x@.len() - i,
    {
        proof {
            assert(x@.skip(i as int).drop_first() =~= x@.skip(i + 1));
            assert(y@.skip(i as int).drop_first() =~= y@.skip(i + 1));
            assert(x@.skip(i as int)[0] == x@[i as int]);
            assert(y@.skip(i as int)[0] == y@[i as int]);
        }
        let p = x[i] as u32;
        let q = y[i] as u32;
        if p < q {
            return -1;
        }
        if p > q {
            return 1;
        }
        i = i + 1;
    }
    proof {
        if i == x@.len() {
            assert(x@.skip(i as int) =~= Seq::<char>::empty());
        }
        if i == y@.len() {
            assert(y@.skip(i as int) =~= Seq::<char>::empty());
        }
    }
    if x.len() == y.len() {
        0
    } else if i == x.len() {
        -1
    } else {
        1
    }
}

fn long_value(op: BinaryOperatorKind, a: i64, b: i64) -> (r: i64)
    ensures
        r == long_op(op, a, b),
{
    match op {
        BinaryOperatorKind::Addition => a.wrapping_add(b),
        BinaryOperatorKind::Subtraction => a.wrapping_sub(b),
        BinaryOperatorKind::Multiplication => a.wrapping_mul(b),
        BinaryOperatorKind::BitwiseAnd => a & b,
        BinaryOperatorKind::BitwiseOr => a | b,
        _ => a ^ b,
    }
}

fn equals(lf: u16, rf: u16, l: &FoldOperand, r: &FoldOperand) -> (e: Option<bool>)
    requires
        operand_ok(lf, *l),
        operand_ok(rf, *r),
    ensures
        e == equals_spec(lf, rf, *l, *r),
{
    if has_e_flag(lf, FLAG_IS_NIL) && has_e_flag(rf, FLAG_IS_NIL) {
        Some(true)
    } else if has_e_flag(lf, FLAG_IS_STR) && has_e_flag(rf, FLAG_IS_STR) {
        let a = l.string.as_ref().unwrap();
        let b = r.string.as_ref().unwrap();
        Some(crate::text::str_eq(a.as_str(), b.as_str()))
    } else if has_e_flag(lf, FLAG_IS_BOOL) && has_e_flag(rf, FLAG_IS_BOOL) {
        Some(has_e_flag(lf, FLAG_IS_TRUTHY) == has_e_flag(rf, FLAG_IS_TRUTHY))
    } else {
        match (l.number, r.number) {
            (NumberValue::NotNumber, _) | (_, NumberValue::NotNumber) => Some(false),
            (NumberValue::Long(a), NumberValue::Long(b)) => Some(a == b),
            _ => None,
        }
    }
}

fn compare(lf: u16, rf: u16, l: &FoldOperand, r: &FoldOperand) -> (c: Option<i32>)
    requires
        operand_ok(lf, *l),
        operand_ok(rf, *r),
        comparison_defined(lf, rf),
    ensures
        match compare_spec(lf, rf, *l, *r) {
            Some(v) => c is Some && c->0 == v,
            None => c is None,
        },
{
    if has_e_flag(lf, FLAG_IS_DOUBLE) && has_e_flag(rf, FLAG_IS_DOUBLE) {
        None
    } else if has_e_flag(lf, FLAG_IS_LONG) && has_e_flag(rf, FLAG_IS_LONG) {
        match (l.number, r.number) {
            (NumberValue::Long(a), NumberValue::Long(b)) => Some(
                if a < b {
                    -1
                } else if a > b {
                    1
                } else {
                    0
                },
            ),
            _ => None,
        }
    } else if (has_e_flag(lf, FLAG_IS_DOUBLE) && has_e_flag(rf, FLAG_IS_LONG)) || (has_e_flag(
        lf,
        FLAG_IS_LONG,
    ) && has_e_flag(rf, FLAG_IS_DOUBLE)) {
        None
    } else {
        let a = l.string.as_ref().unwrap();
        let b = r.string.as_ref().unwrap();
        Some(compare_chars(a.as_str(), b.as_str()))
    }
}

/// Folds `left op right` as the constant folder does, for every operator:
/// integer arithmetic wraps, `%` by zero does not fold, concatenation joins
/// the literal texts, `==` and `~=` compare scalars, the orderings compare
/// numbers or strings, `and` and `or` keep the operand Lua keeps, bitwise
/// operators and shifts work on 64-bit integers; a fold that takes
/// floating-point values is left to the caller (`NeedsFloat`).
pub fn fold_binary(folder: &ConstantFolder, op: BinaryOperatorKind, left: &FoldOperand, right: &FoldOperand) -> (r: BinaryFold)
    requires
        operand_ok(flags_of(left.shape, folder.options.extract_numbers_from_strings), *left),
        operand_ok(flags_of(right.shape, folder.options.extract_numbers_from_strings), *right),
        ({
            let lf = flags_of(left.shape, folder.options.extract_numbers_from_strings);
            let rf = flags_of(right.shape, folder.options.extract_numbers_from_strings);
            op == BinaryOperatorKind::StringConcatenation ==> concat_ok(lf, rf, *left, *right)
        }),
        ({
            let lf = flags_of(left.shape, folder.options.extract_numbers_from_strings);
            let rf = flags_of(right.shape, folder.options.extract_numbers_from_strings);
            (op == BinaryOperatorKind::LessThan || op == BinaryOperatorKind::LessThanOrEqual || op
                == BinaryOperatorKind::GreaterThan || op == BinaryOperatorKind::GreaterThanOrEqual)
                && ((has(lf, FLAG_IS_NUM) && has(rf, FLAG_IS_NUM)) || (has(lf, FLAG_IS_STR) && has(
                rf,
                FLAG_IS_STR,
            ))) ==> comparison_defined(lf, rf)
        }),
    ensures
        r@ == fold_binary_spec(folder.options.extract_numbers_from_strings, op, *left, *right),
{
    let lf = folder.get_flags(left.shape);
    let rf = folder.get_flags(right.shape);
    let both_num = left.number != NumberValue::NotNumber && right.number != NumberValue::NotNumber;
    match op {
        BinaryOperatorKind::Addition | BinaryOperatorKind::Subtraction
        | BinaryOperatorKind::Multiplication => {
            if !both_num {
                BinaryFold::Keep
            } else {
                match (left.number, right.number) {
                    (NumberValue::Long(a), NumberValue::Long(b)) => BinaryFold::Long(long_value(op, a, b)),
                    _ => BinaryFold::NeedsFloat,
                }
            }
        },
        BinaryOperatorKind::Division | BinaryOperatorKind::Exponentiation => {
            if both_num {
                BinaryFold::NeedsFloat
            } else {
                BinaryFold::Keep
            }
        },
        BinaryOperatorKind::Modulus => {
            if !both_num {
                BinaryFold::Keep
            } else {
                match (left.number, right.number) {
                    (NumberValue::Long(a), NumberValue::Long(b)) => {
                        if b == 0 {
                            BinaryFold::Keep
                        } else {
                            match a.checked_rem(b) {
                                Some(v) => BinaryFold::Long(v),
                                None => BinaryFold::Long(0),
                            }
                        }
                    },
                    _ => BinaryFold::NeedsFloat,
                }
            }
        },
        BinaryOperatorKind::StringConcatenation => {
            if has_e_flag(lf, FLAG_IS_STR | FLAG_IS_BOOL) && has_e_flag(rf, FLAG_IS_STR | FLAG_IS_BOOL) {
                BinaryFold::Str(fold_concat(left.concat.as_ref().unwrap(), right.concat.as_ref().unwrap()))
            } else {
                BinaryFold::Keep
            }
        },
        BinaryOperatorKind::Equals | BinaryOperatorKind::NotEquals => {
            if has_e_flag(lf, FLAG_IS_SCALAR) && has_e_flag(rf, FLAG_IS_SCALAR) {
                match equals(lf, rf, left, right) {
                    Some(e) => BinaryFold::Bool(
                        if op == BinaryOperatorKind::Equals {
                            e
                        } else {
                            !e
                        },
                    ),
                    None => BinaryFold::NeedsFloat,
                }
            } else {
                BinaryFold::Keep
            }
        },
        BinaryOperatorKind::LessThan | BinaryOperatorKind::LessThanOrEqual
        | BinaryOperatorKind::GreaterThan | BinaryOperatorKind::GreaterThanOrEqual => {
            if (has_e_flag(lf, FLAG_IS_NUM) && has_e_flag(rf, FLAG_IS_NUM)) || (has_e_flag(lf, FLAG_IS_STR)
                && has_e_flag(rf, FLAG_IS_STR)) {
                match compare(lf, rf, left, right) {
                    Some(c) => BinaryFold::Bool(
                        match op {
                            BinaryOperatorKind::LessThan => c < 0,
                            BinaryOperatorKind::LessThanOrEqual => c <= 0,
                            BinaryOperatorKind::GreaterThan => c > 0,
                            _ => c >= 0,
                        },
                    ),
                    None => BinaryFold::NeedsFloat,
                }
            } else {
                BinaryFold::Keep
            }
        },
        BinaryOperatorKind::And | BinaryOperatorKind::Or => {
            match fold_logical(op == BinaryOperatorKind::And, left.shape) {
                Some(Side::Right) => BinaryFold::Right,
                Some(Side::Left) => BinaryFold::Left,
                None => BinaryFold::Keep,
            }
        },
        BinaryOperatorKind::BitwiseAnd | BinaryOperatorKind::BitwiseOr
        | BinaryOperatorKind::ExclusiveOr => {
            if has_e_flag(lf, FLAG_IS_NUM) && has_e_flag(rf, FLAG_IS_NUM) {
                match (left.int64, right.int64) {
                    (Some(a), Some(b)) => {
                        if has_e_flag(lf, FLAG_IS_LONG) || has_e_flag(rf, FLAG_IS_LONG) {
                            BinaryFold::Long(long_value(op, a, b))
                        } else {
                            BinaryFold::NeedsFloat
                        }
                    },
                    _ => BinaryFold::Keep,
                }
            } else {
                BinaryFold::Keep
            }
        },
        BinaryOperatorKind::LeftShift | BinaryOperatorKind::RightShift => {
            if has_e_flag(lf, FLAG_IS_NUM) && has_e_flag(rf, FLAG_IS_NUM) {
                match (left.int64, ConstantFolder::try_get_int32(right.int64)) {
                    (Some(a), Some(b)) => {
                        if has_e_flag(lf, FLAG_IS_LONG) || has_e_flag(rf, FLAG_IS_LONG) {
                            BinaryFold::Long(
                                if op == BinaryOperatorKind::RightShift {
                                    a.wrapping_shr(b as u32)
                                } else {
                                    a.wrapping_shl(b as u32)
                                },
                            )
                        } else {
                            BinaryFold::NeedsFloat
                        }
                    },
                    _ => BinaryFold::Keep,
                }
            } else {
                BinaryFold::Keep
            }
        },
        _ => BinaryFold::Keep,
    }
}

/// What a unary expression folds to.
#[derive(Debug, Clone, Copy, PartialEq, Eq, Structural)]
pub enum UnaryFold {
    /// It stays as it is.
    Keep,
    /// An integer literal.
    Long(i64),
    /// A boolean literal.
    Bool(bool),
    /// The length of a string, in UTF-16 code units, written as a float
    /// literal.
    Length(usize),
    /// The folded value is a floating-point result.
    NeedsFloat,
}

/// The fold of `op operand`: `-` of an integer wraps; `not` of a value
/// whose truth is known; `~` of an integer, or of a float or a numeric
/// string with an integer value (a float result); `#` of a string.
pub open spec fn fold_unary_spec(extract: bool, op: UnaryOperatorKind, o: FoldOperand) -> UnaryFold {
    let f = flags_of(o.shape, extract);
    match op {
        UnaryOperatorKind::Negation => match o.number {
            NumberValue::Long(v) => UnaryFold::Long(
                if v == i64::MIN {
                    v
                } else {
                    (-v) as i64
                },
            ),
            NumberValue::Double => UnaryFold::NeedsFloat,
            NumberValue::NotNumber => UnaryFold::Keep,
        },
        UnaryOperatorKind::Not => match bool_of(o.shape) {
            Some(b) => UnaryFold::Bool(!b),
            None => UnaryFold::Keep,
        },
        UnaryOperatorKind::BitwiseNot => if has(f, FLAG_IS_DOUBLE | FLAG_IS_STRING_WITH_NUMBER) {
            if o.int64 is Some {
                UnaryFold::NeedsFloat
            } else {
                UnaryFold::Keep
            }
        } else if has(f, FLAG_IS_LONG) {
            match o.int64 {
                Some(v) => UnaryFold::Long(!v),
                None => UnaryFold::Keep,
            }
        } else {
            UnaryFold::Keep
        },
        UnaryOperatorKind::Length => if has(f, FLAG_IS_STR) {
            UnaryFold::Length(utf16_units(o.string.unwrap()@) as usize)
        } else {
            UnaryFold::Keep
        },
        _ => UnaryFold::Keep,
    }
}

/// Folds `op operand` as the constant folder does (see `fold_unary_spec`).
pub fn fold_unary(folder: &ConstantFolder, op: UnaryOperatorKind, operand: &FoldOperand) -> (r: UnaryFold)
    requires
        operand_ok(flags_of(operand.shape, folder.options.extract_numbers_from_strings), *operand),
        operand.string matches Some(s) ==> 2 * s@.len() <= usize::MAX,
    ensures
        r == fold_unary_spec(folder.options.extract_numbers_from_strings, op, *operand),
{
    let f = folder.get_flags(operand.shape);
    match op {
        UnaryOperatorKind::Negation => match operand.number {
            NumberValue::Long(v) => UnaryFold::Long(
                if v == i64::MIN {
                    v
                } else {
                    -v
                },
            ),
            NumberValue::Double => UnaryFold::NeedsFloat,
            NumberValue::NotNumber => UnaryFold::Keep,
        },
        UnaryOperatorKind::Not => match ConstantFolder::try_convert_to_bool(operand.shape) {
            Some(b) => UnaryFold::Bool(!b),
            None => UnaryFold::Keep,
        },
        UnaryOperatorKind::BitwiseNot => {
            if has_e_flag(f, FLAG_IS_DOUBLE | FLAG_IS_STRING_WITH_NUMBER) {
                if operand.int64.is_some() {
                    UnaryFold::NeedsFloat
                } else {
                    UnaryFold::Keep
                }
            } else if has_e_flag(f, FLAG_IS_LONG) {
                match operand.int64 {
                    Some(v) => UnaryFold::Long(!v),
                    None => UnaryFold::Keep,
                }
            } else {
                UnaryFold::Keep
            }
        },
        UnaryOperatorKind::Length => {
            if has_e_flag(f, FLAG_IS_STR) {
                UnaryFold::Length(utf16_len(operand.string.as_ref().unwrap().as_str()))
            } else {
                UnaryFold::Keep
            }
        },
        _ => UnaryFold::Keep,
    }
}


/// The flags of an integer literal.
proof fn lemma_long_flags(f: u16)
    by (bit_vector)
    requires
        f == 0u16 | FLAG_IS_LONG | FLAG_IS_TRUTHY,
    ensures
        (f & FLAG_IS_LONG) != 0,
        (f & FLAG_IS_NUM) != 0,
        (f & FLAG_IS_SCALAR) != 0,
        (f & FLAG_IS_DOUBLE) == 0,
        (f & FLAG_IS_STR) == 0,
        (f & FLAG_IS_NIL) == 0,
        (f & FLAG_IS_BOOL) == 0,
{
}

/// Folding a comparison of two integer literals gives the comparison of
/// their values: `<`, `<=`, `>`, `>=`, `==` and `~=` fold to the boolean
/// that the integers' order gives, whatever the options.
pub proof fn law_integer_comparisons_fold_to_their_order(
    extract: bool,
    l: FoldOperand,
    r: FoldOperand,
    a: i64,
    b: i64,
)
    requires
        l.shape == (ExpressionShape::Number { is_double: false }),
        r.shape == (ExpressionShape::Number { is_double: false }),
        l.number == NumberValue::Long(a),
        r.number == NumberValue::Long(b),
    ensures
        fold_binary_spec(extract, BinaryOperatorKind::LessThan, l, r) == FoldView::Bool(a < b),
        fold_binary_spec(extract, BinaryOperatorKind::LessThanOrEqual, l, r) == FoldView::Bool(a <= b),
        fold_binary_spec(extract, BinaryOperatorKind::GreaterThan, l, r) == FoldView::Bool(a > b),
        fold_binary_spec(extract, BinaryOperatorKind::GreaterThanOrEqual, l, r) == FoldView::Bool(
            a >= b,
        ),
        fold_binary_spec(extract, BinaryOperatorKind::Equals, l, r) == FoldView::Bool(a == b),
        fold_binary_spec(extract, BinaryOperatorKind::NotEquals, l, r) == FoldView::Bool(a != b),
{
    let f = flags_of(l.shape, extract);
    assert(f == 0u16 | FLAG_IS_LONG | FLAG_IS_TRUTHY);
    assert(flags_of(r.shape, extract) == f);
    lemma_long_flags(f);
}

/// Folding arithmetic on two integer literals gives the wrapping integer
/// result of the operator, as std's wrapping operations compute it; `%` by
/// zero does not fold.
pub proof fn law_integer_arithmetic_folds_to_its_value(
    extract: bool,
    l: FoldOperand,
    r: FoldOperand,
    a: i64,
    b: i64,
)
    requires
        l.number == NumberValue::Long(a),
        r.number == NumberValue::Long(b),
    ensures
        fold_binary_spec(extract, BinaryOperatorKind::Addition, l, r) == FoldView::Long(
            a.wrapping_add(b),
        ),
        fold_binary_spec(extract, BinaryOperatorKind::Subtraction, l, r) == FoldView::Long(
            a.wrapping_sub(b),
        ),
        fold_binary_spec(extract, BinaryOperatorKind::Multiplication, l, r) == FoldView::Long(
            a.wrapping_mul(b),
        ),
        b != 0 && !(a == i64::MIN && b == -1) ==> fold_binary_spec(
            extract,
            BinaryOperatorKind::Modulus,
            l,
            r,
        ) == FoldView::Long(a.checked_rem(b).unwrap()),
        b == 0 ==> fold_binary_spec(extract, BinaryOperatorKind::Modulus, l, r) == FoldView::Keep,
{
}

} // verus!
