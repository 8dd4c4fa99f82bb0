//! The shapes of the numbers that the constant folder reads out of strings:
//! decimal and hexadecimal integers and floats, over the string's bytes.
use vstd::prelude::*;
use vstd::string::StringSliceAdditionalSpecFns;

verus! {

/// An ASCII decimal digit.
pub open spec fn is_digit_byte(b: u8) -> bool {
    48 <= b && b <= 57
}

/// An ASCII hexadecimal digit.
pub open spec fn is_hex_byte(b: u8) -> bool {
    is_digit_byte(b) || (97 <= b && b <= 102) || (65 <= b && b <= 70)
}

/// The length of a leading `+` or `-`.
pub open spec fn sign_len(b: Seq<u8>) -> int {
    if b.len() > 0 && (b[0] == 43 || b[0] == 45) {
        1
    } else {
        0
    }
}

/// An optional sign and one or more decimal digits.
pub open spec fn dec_integer_form(b: Seq<u8>) -> bool {
    let k = sign_len(b);
    k < b.len() && forall|i: int| k <= i < b.len() ==> #[trigger] is_digit_byte(b[i])
}

/// An optional sign, `0x` or `0X`, and one or more hexadecimal digits.
pub open spec fn hex_integer_form(b: Seq<u8>) -> bool {
    let k = sign_len(b);
    b.len() - k >= 3 && b[k] == 48 && (b[k + 1] == 120 || b[k + 1] == 88) && forall|i: int|
        k + 2 <= i < b.len() ==> #[trigger] is_hex_byte(b[i])
}

/// Whether `b` holds a decimal digit.
pub open spec fn has_digit(b: Seq<u8>) -> bool {
    exists|i: int| 0 <= i < b.len() && #[trigger] is_digit_byte(b[i])
}

/// Where the run of hexadecimal digits that starts at `i` ends.
pub open spec fn hex_run_end(b: Seq<u8>, i: int) -> int
    decreases b.len() - i,
{
    if 0 <= i < b.len() && is_hex_byte(b[i]) {
        hex_run_end(b, i + 1)
    } else {
        i
    }
}

/// Where the run of decimal digits that starts at `i` ends.
pub open spec fn dec_run_end(b: Seq<u8>, i: int) -> int
    decreases b.len() - i,
{
    if 0 <= i < b.len() && is_digit_byte(b[i]) {
        dec_run_end(b, i + 1)
    } else {
        i
    }
}

/// Where the mantissa of a hexadecimal float that starts after its `0x`
/// (at index 2 of `r`) ends: `.` and digits, or digits with an optional `.`
/// and more digits; `None` when there is no digit where one is needed.
pub open spec fn hex_mantissa_end(r: Seq<u8>) -> Option<int> {
    if 2 < r.len() && r[2] == 46 {
        if 3 < r.len() && is_hex_byte(r[3]) {
            Some(hex_run_end(r, 3))
        } else {
            None
        }
    } else if 2 < r.len() && is_hex_byte(r[2]) {
        let j = hex_run_end(r, 2);
        if j < r.len() && r[j] == 46 {
            Some(hex_run_end(r, j + 1))
        } else {
            Some(j)
        }
    } else {
        None
    }
}

/// Where an optional binary exponent (`p` or `P`, a sign, one or more
/// decimal digits) that starts at `i` ends; `None` when its digits are
/// missing.
pub open spec fn hex_exponent_end(r: Seq<u8>, i: int) -> Option<int> {
    if i < r.len() && (r[i] == 112 || r[i] == 80) {
        let j = if i + 1 < r.len() && (r[i + 1] == 43 || r[i + 1] == 45) {
            i + 2
        } else {
            i + 1
        };
        if j < r.len() && is_digit_byte(r[j]) {
            Some(dec_run_end(r, j))
        } else {
            None
        }
    } else {
        Some(i)
    }
}

/// An optional sign, `0x` or `0X`, a hexadecimal mantissa, an optional
/// binary exponent, and nothing after.
pub open spec fn hex_float_form(b: Seq<u8>) -> bool {
    let r = b.skip(sign_len(b));
    r.len() >= 2 && r[0] == 48 && (r[1] == 120 || r[1] == 88) && match hex_mantissa_end(r) {
        Some(i) => hex_exponent_end(r, i) == Some(r.len() as int),
        None => false,
    }
}

/// Whether `value` is an optionally signed decimal integer.
pub fn is_dec_integer(value: &str) -> (r: bool)
    ensures
        r == dec_integer_form(value.spec_bytes()),
{
    let bytes = value.as_bytes();
    let mut idx: usize = 0;
    if bytes.len() > 0 && (bytes[0] == 43 || bytes[0] == 45) {
        idx = 1;
    }
    if idx == bytes.len() {
        return false;
    }
    let mut i = idx;
    while i < bytes.len()
        invariant
            idx <= i <= bytes@.len(),
            bytes@ == value.spec_bytes(),
            idx == sign_len(bytes@),
            forall|q: int| idx <= q < i ==> #[trigger] is_digit_byte(bytes@[q]),
        decreases bytes@.len() - i,
    {
        if !(48 <= bytes[i] && bytes[i] <= 57) {
            proof {
                assert(!is_digit_byte(bytes@[i as int]));
            }
            return false;
        }
        i = i + 1;
    }
    true
}

/// Whether `value` is an optionally signed `0x` hexadecimal integer.
pub fn is_hex_integer(value: &str) -> (r: bool)
    ensures
        r == hex_integer_form(value.spec_bytes()),
{
    let bytes = value.as_bytes();
    let mut idx: usize = 0;
    if bytes.len() > 0 && (bytes[0] == 43 || bytes[0] == 45) {
        idx = 1;
    }
    if bytes.len() - idx < 3 {
        return false;
    }
    if bytes[idx] != 48 || (bytes[idx + 1] != 120 && bytes[idx + 1] != 88) {
        return false;
    }
    let mut i = idx + 2;
    while i < bytes.len()
        invariant
            idx + 2 <= i <= bytes@.len(),
            bytes@ == value.spec_bytes(),
            idx == sign_len(bytes@),
            forall|q: int| idx + 2 <= q < i ==> #[trigger] is_hex_byte(bytes@[q]),
        decreases bytes@.len() - i,
    {
        let c = bytes[i];
        if !((48 <= c && c <= 57) || (97 <= c && c <= 102) || (65 <= c && c <= 70)) {
            proof {
                assert(!is_hex_byte(bytes@[i as int]));
            }
            return false;
        }
        i = i + 1;
    }
    true
}

/// Whether the text at the start of `rest` begins a decimal float: a digit,
/// or a `.` followed by a digit.
pub open spec fn dec_float_start(rest: Seq<u8>) -> bool {
    rest.len() > 0 && if rest[0] == 46 {
        rest.len() > 1 && is_digit_byte(rest[1])
    } else {
        is_digit_byte(rest[0])
    }
}

/// Reads a decimal float at the start of `bytes[from..]` (digits, an
/// optional fraction, an optional exponent) and tells whether it begins
/// like one.
fn dec_float_match(bytes: &[u8], from: usize) -> (r: bool)
    requires
        from <= bytes@.len(),
    ensures
        r == dec_float_start(bytes@.skip(from as int)),
{
    let n = bytes.len();
    let ghost rest = bytes@.skip(from as int);
    if from == n {
        return false;
    }
    let mut i = from;
    if bytes[from] == 46 {
        i = from + 1;
        if i == n || !(48 <= bytes[i] && bytes[i] <= 57) {
            return false;
        }
        while i < n && 48 <= bytes[i] && bytes[i] <= 57
            invariant
                from < i <= n,
                n == bytes@.len(),
            decreases n - i,
        {
            i = i + 1;
        }
    } else {
        if !(48 <= bytes[from] && bytes[from] <= 57) {
            return false;
        }
        while i < n && 48 <= bytes[i] && bytes[i] <= 57
            invariant
                from <= i <= n,
                n == bytes@.len(),
            decreases n - i,
        {
            i = i + 1;
        }
        if i < n && bytes[i] == 46 {
            i = i + 1;
            while i < n && 48 <= bytes[i] && bytes[i] <= 57
                invariant
                    from <= i <= n,
                    n == bytes@.len(),
                decreases n - i,
            {
                i = i + 1;
            }
        }
    }
    if i < n && (bytes[i] == 101 || bytes[i] == 69) {
        i = i + 1;
        if i < n && (bytes[i] == 43 || bytes[i] == 45) {
            i = i + 1;
        }
        while i < n && 48 <= bytes[i] && bytes[i] <= 57
            invariant
                from <= i <= n,
                n == bytes@.len(),
            decreases n - i,
        {
            i = i + 1;
        }
    }
    true
}

/// Whether a decimal float starts somewhere in `value`, after an optional
/// sign: exactly when `value` holds a decimal digit.
pub fn is_dec_float(value: &str) -> (r: bool)
    ensures
        r == has_digit(value.spec_bytes()),
{
    let bytes = value.as_bytes();
    let n = bytes.len();
    let mut start: usize = 0;
    while start < n
        invariant
            start <= n == bytes@.len(),
            bytes@ == value.spec_bytes(),
            forall|q: int| 0 <= q < start ==> !is_digit_byte(#[trigger] bytes@[q]),
        decreases n - start,
    {
        let mut i = start;
        if bytes[i] == 43 || bytes[i] == 45 {
            i = i + 1;
        }
        if i < n && (bytes[i] == 46 || (48 <= bytes[i] && bytes[i] <= 57)) {
            if dec_float_match(bytes, i) {
                proof {
                    let rest = bytes@.skip(i as int);
                    if rest[0] == 46 {
                        assert(is_digit_byte(bytes@[i + 1]));
                    } else {
                        assert(is_digit_byte(bytes@[i as int]));
                    }
                }
                return true;
            }
        }
        proof {
            assert(!is_digit_byte(bytes@[start as int])) by {
                if is_digit_byte(bytes@[start as int]) {
                    assert(bytes@.skip(start as int)[0] == bytes@[start as int]);
                }
            }
        }
        start = start + 1;
    }
    false
}

proof fn lemma_hex_run_end(b: Seq<u8>, i: int)
    requires
        0 <= i <= b.len(),
    ensures
        i <= hex_run_end(b, i) <= b.len(),
        forall|q: int| i <= q < hex_run_end(b, i) ==> #[trigger] is_hex_byte(b[q]),
        hex_run_end(b, i) < b.len() ==> !is_hex_byte(b[hex_run_end(b, i)]),
    decreases b.len() - i,
{
    if i < b.len() && is_hex_byte(b[i]) {
        lemma_hex_run_end(b, i + 1);
    }
}

proof fn lemma_dec_run_end(b: Seq<u8>, i: int)
    requires
        0 <= i <= b.len(),
    ensures
        i <= dec_run_end(b, i) <= b.len(),
        dec_run_end(b, i) < b.len() ==> !is_digit_byte(b[dec_run_end(b, i)]),
    decreases b.len() - i,
{
    if i < b.len() && is_digit_byte(b[i]) {
        lemma_dec_run_end(b, i + 1);
    }
}

/// The end of the run of hexadecimal digits of `r` from `i`.
fn skip_hex(r: &[u8], i: usize) -> (e: usize)
    requires
        i <= r@.len(),
    ensures
        e == hex_run_end(r@, i as int),
    decreases r@.len() - i,
{
    if i < r.len() {
        let c = r[i];
        if (48 <= c && c <= 57) || (97 <= c && c <= 102) || (65 <= c && c <= 70) {
            return skip_hex(r, i + 1);
        }
    }
    i
}

/// The end of the run of decimal digits of `r` from `i`.
fn skip_dec(r: &[u8], i: usize) -> (e: usize)
    requires
        i <= r@.len(),
    ensures
        e == dec_run_end(r@, i as int),
    decreases r@.len() - i,
{
    if i < r.len() && 48 <= r[i] && r[i] <= 57 {
        return skip_dec(r, i + 1);
    }
    i
}

/// Whether `value` is, in whole, an optionally signed hexadecimal float:
/// `0x`, a mantissa with at least one digit, and an optional binary
/// exponent.
pub fn is_hex_float(value: &str) -> (r: bool)
    ensures
        r == hex_float_form(value.spec_bytes()),
{
    let bytes = value.as_bytes();
    let mut idx: usize = 0;
    if bytes.len() > 0 && (bytes[0] == 43 || bytes[0] == 45) {
        idx = 1;
    }
    let rest = slice_from(bytes, idx);
    let ghost rs = bytes@.skip(idx as int);
    let n = rest.len();
    if n < 2 || rest[0] != 48 || (rest[1] != 120 && rest[1] != 88) {
        return false;
    }
    let mut i: usize = 2;
    let mut digits: usize = 0;
    if i < n && rest[i] == 46 {
        i = i + 1;
        if i == n || !is_hex_digit_byte(rest[i]) {
            return false;
        }
        let e = skip_hex(&rest, i);
        proof {
            lemma_hex_run_end(rs, 3);
        }
        digits = e - i;
        i = e;
    } else {
        if i == n || !is_hex_digit_byte(rest[i]) {
            return false;
        }
        let e = skip_hex(&rest, i);
        proof {
            lemma_hex_run_end(rs, 2);
        }
        digits = e - i;
        i = e;
        if i < n && rest[i] == 46 {
            i = i + 1;
            let e2 = skip_hex(&rest, i);
            proof {
                lemma_hex_run_end(rs, i as int);
            }
            digits = digits + (e2 - i);
            i = e2;
        }
    }
    if digits == 0 {
        return false;
    }
    proof {
        assert(hex_mantissa_end(rs) == Some(i as int));
    }
    if i < n && (rest[i] == 112 || rest[i] == 80) {
        i = i + 1;
        if i < n && (rest[i] == 43 || rest[i] == 45) {
            i = i + 1;
        }
        if i == n || !(48 <= rest[i] && rest[i] <= 57) {
            return false;
        }
        let e = skip_dec(&rest, i);
        proof {
            lemma_dec_run_end(rs, i as int);
        }
        i = e;
    }
    i == n
}

/// Whether `c` is an ASCII hexadecimal digit.
fn is_hex_digit_byte(c: u8) -> (r: bool)
    ensures
        r == is_hex_byte(c),
{
    (48 <= c && c <= 57) || (97 <= c && c <= 102) || (65 <= c && c <= 70)
}

/// The bytes of `b` from `from` on.
fn slice_from(b: &[u8], from: usize) -> (r: Vec<u8>)
    requires
        from <= b@.len(),
    ensures
        r@ == b@.skip(from as int),
{
    let mut v: Vec<u8> = Vec::new();
    let mut i = from;
    while i < b.len()
        invariant
            from <= i <= b@.len(),
            v@ == b@.subrange(from as int, i as int),
        decreases b@.len() - i,
    {
        v.push(b[i]);
        i = i + 1;
        proof {
            assert(v@ =~= b@.subrange(from as int, i as int));
        }
    }
    proof {
        assert(b@.subrange(from as int, b@.len() as int) =~= b@.skip(from as int));
    }
    v
}

} // verus!
