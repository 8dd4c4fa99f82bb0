use vstd::prelude::*;

verus! {

/// The expression is `nil`.
pub const FLAG_IS_NIL: u16 = 1 << 0;
/// The expression is a floating-point number.
pub const FLAG_IS_DOUBLE: u16 = 1 << 1;
/// The expression is a string.
pub const FLAG_IS_STR: u16 = 1 << 2;
/// The expression is a boolean.
pub const FLAG_IS_BOOL: u16 = 1 << 3;
/// The expression is truthy.
pub const FLAG_IS_TRUTHY: u16 = 1 << 4;
/// The expression is falsey.
pub const FLAG_IS_FALSEY: u16 = 1 << 5;
/// The expression is a table constructor with constant contents.
pub const FLAG_IS_CONSTANT_TABLE: u16 = 1 << 6;
/// The expression is an anonymous function.
pub const FLAG_IS_ANONYMOUS_FUNCTION: u16 = 1 << 7;
/// The expression is an integer.
pub const FLAG_IS_LONG: u16 = 1 << 8;
/// The expression is a string that holds a number.
pub const FLAG_IS_STRING_WITH_NUMBER: u16 = 1 << 9;

/// The expression converts to a boolean.
pub const FLAG_CAN_CONVERT_TO_BOOL: u16 = FLAG_IS_TRUTHY | FLAG_IS_FALSEY;
/// The expression is a scalar constant.
pub const FLAG_IS_SCALAR: u16 = FLAG_IS_NIL | FLAG_IS_DOUBLE | FLAG_IS_LONG | FLAG_IS_STR
    | FLAG_IS_BOOL;
/// The expression is a constant.
pub const FLAG_IS_CONSTANT: u16 = FLAG_IS_SCALAR | FLAG_IS_CONSTANT_TABLE
    | FLAG_IS_ANONYMOUS_FUNCTION;
/// The expression is a number, or a string that holds one.
pub const FLAG_IS_NUM: u16 = FLAG_IS_DOUBLE | FLAG_IS_LONG | FLAG_IS_STRING_WITH_NUMBER;

/// Whether `flags` has any of the bits of `wanted_flag`.
pub fn has_e_flag(flags: u16, wanted_flag: u16) -> (r: bool)
    ensures
        r == ((flags & wanted_flag) != 0),
{
    (flags & wanted_flag) != 0
}

/// A flag set that holds a single flag has every composite flag that names it.
pub proof fn law_single_flags_in_composites(flags: u16)
    ensures
        (flags & FLAG_IS_NIL) != 0 ==> (flags & FLAG_IS_SCALAR) != 0,
        (flags & FLAG_IS_LONG) != 0 ==> (flags & FLAG_IS_SCALAR) != 0,
        (flags & FLAG_IS_SCALAR) != 0 ==> (flags & FLAG_IS_CONSTANT) != 0,
        (flags & FLAG_IS_TRUTHY) != 0 ==> (flags & FLAG_CAN_CONVERT_TO_BOOL) != 0,
        (flags & FLAG_IS_STRING_WITH_NUMBER) != 0 ==> (flags & FLAG_IS_NUM) != 0,
{
    assert((flags & FLAG_IS_NIL) != 0 ==> (flags & FLAG_IS_SCALAR) != 0) by (bit_vector);
    assert((flags & FLAG_IS_LONG) != 0 ==> (flags & FLAG_IS_SCALAR) != 0) by (bit_vector);
    assert((flags & FLAG_IS_SCALAR) != 0 ==> (flags & FLAG_IS_CONSTANT) != 0) by (bit_vector);
    assert((flags & FLAG_IS_TRUTHY) != 0 ==> (flags & FLAG_CAN_CONVERT_TO_BOOL) != 0)
        by (bit_vector);
    assert((flags & FLAG_IS_STRING_WITH_NUMBER) != 0 ==> (flags & FLAG_IS_NUM) != 0)
        by (bit_vector);
}

} // verus!
