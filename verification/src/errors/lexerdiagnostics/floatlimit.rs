use vstd::prelude::*;

use crate::errors::lexerdiagnostics::digitvalue::{
    digits_below, digits_value, lemma_scaled_longer, lemma_scaled_shorter, lemma_scaled_zero,
    lemma_value_append, lemma_value_leading_zeros, power, scaled_at_least, scaled_at_least_exec,
    zero_digits,
};

verus! {

/// The decimal digits of 2^1024 - 2^970, the smallest number that rounds to
/// infinity as an IEEE 754 double.
pub open spec fn double_limit_decimal() -> Seq<u8> {
    seq![
        1u8, 7, 9, 7, 6, 9, 3, 1, 3, 4, 8, 6, 2, 3, 1, 5, 8, 0, 7, 9,
        3, 7, 2, 8, 9, 7, 1, 4, 0, 5, 3, 0, 3, 4, 1, 5, 0, 7, 9, 9,
        3, 4, 1, 3, 2, 7, 1, 0, 0, 3, 7, 8, 2, 6, 9, 3, 6, 1, 7, 3,
        7, 7, 8, 9, 8, 0, 4, 4, 4, 9, 6, 8, 2, 9, 2, 7, 6, 4, 7, 5,
        0, 9, 4, 6, 6, 4, 9, 0, 1, 7, 9, 7, 7, 5, 8, 7, 2, 0, 7, 0,
        9, 6, 3, 3, 0, 2, 8, 6, 4, 1, 6, 6, 9, 2, 8, 8, 7, 9, 1, 0,
        9, 4, 6, 5, 5, 5, 5, 4, 7, 8, 5, 1, 9, 4, 0, 4, 0, 2, 6, 3,
        0, 6, 5, 7, 4, 8, 8, 6, 7, 1, 5, 0, 5, 8, 2, 0, 6, 8, 1, 9,
        0, 8, 9, 0, 2, 0, 0, 0, 7, 0, 8, 3, 8, 3, 6, 7, 6, 2, 7, 3,
        8, 5, 4, 8, 4, 5, 8, 1, 7, 7, 1, 1, 5, 3, 1, 7, 6, 4, 4, 7,
        5, 7, 3, 0, 2, 7, 0, 0, 6, 9, 8, 5, 5, 5, 7, 1, 3, 6, 6, 9,
        5, 9, 6, 2, 2, 8, 4, 2, 9, 1, 4, 8, 1, 9, 8, 6, 0, 8, 3, 4,
        9, 3, 6, 4, 7, 5, 2, 9, 2, 7, 1, 9, 0, 7, 4, 1, 6, 8, 4, 4,
        4, 3, 6, 5, 5, 1, 0, 7, 0, 4, 3, 4, 2, 7, 1, 1, 5, 5, 9, 6,
        9, 9, 5, 0, 8, 0, 9, 3, 0, 4, 2, 8, 8, 0, 1, 7, 7, 9, 0, 4,
        1, 7, 4, 4, 9, 7, 7, 9, 2,
    ]
}

/// The digits of [`double_limit_decimal`].
pub fn double_limit_decimal_digits() -> (r: Vec<u8>)
    ensures
        r@ == double_limit_decimal(),
{
    let r: Vec<u8> = vec![
        1u8, 7, 9, 7, 6, 9, 3, 1, 3, 4, 8, 6, 2, 3, 1, 5, 8, 0, 7, 9,
        3, 7, 2, 8, 9, 7, 1, 4, 0, 5, 3, 0, 3, 4, 1, 5, 0, 7, 9, 9,
        3, 4, 1, 3, 2, 7, 1, 0, 0, 3, 7, 8, 2, 6, 9, 3, 6, 1, 7, 3,
        7, 7, 8, 9, 8, 0, 4, 4, 4, 9, 6, 8, 2, 9, 2, 7, 6, 4, 7, 5,
        0, 9, 4, 6, 6, 4, 9, 0, 1, 7, 9, 7, 7, 5, 8, 7, 2, 0, 7, 0,
        9, 6, 3, 3, 0, 2, 8, 6, 4, 1, 6, 6, 9, 2, 8, 8, 7, 9, 1, 0,
        9, 4, 6, 5, 5, 5, 5, 4, 7, 8, 5, 1, 9, 4, 0, 4, 0, 2, 6, 3,
        0, 6, 5, 7, 4, 8, 8, 6, 7, 1, 5, 0, 5, 8, 2, 0, 6, 8, 1, 9,
        0, 8, 9, 0, 2, 0, 0, 0, 7, 0, 8, 3, 8, 3, 6, 7, 6, 2, 7, 3,
        8, 5, 4, 8, 4, 5, 8, 1, 7, 7, 1, 1, 5, 3, 1, 7, 6, 4, 4, 7,
        5, 7, 3, 0, 2, 7, 0, 0, 6, 9, 8, 5, 5, 5, 7, 1, 3, 6, 6, 9,
        5, 9, 6, 2, 2, 8, 4, 2, 9, 1, 4, 8, 1, 9, 8, 6, 0, 8, 3, 4,
        9, 3, 6, 4, 7, 5, 2, 9, 2, 7, 1, 9, 0, 7, 4, 1, 6, 8, 4, 4,
        4, 3, 6, 5, 5, 1, 0, 7, 0, 4, 3, 4, 2, 7, 1, 1, 5, 5, 9, 6,
        9, 9, 5, 0, 8, 0, 9, 3, 0, 4, 2, 8, 8, 0, 1, 7, 7, 9, 0, 4,
        1, 7, 4, 4, 9, 7, 7, 9, 2,
    ];
    proof {
        assert(r@ =~= double_limit_decimal());
    }
    r
}


/// `k` one digits.
pub open spec fn one_digits(k: nat) -> Seq<u8> {
    Seq::new(k, |i: int| 1u8)
}

/// The number of zero digits at the front of `d`.
pub open spec fn leading_zeros(d: Seq<u8>) -> nat
    decreases d.len(),
{
    if d.len() > 0 && d[0] == 0 {
        1 + leading_zeros(d.drop_first())
    } else {
        0
    }
}

/// The exponent, with its sign.
pub open spec fn signed_exponent(neg: bool, e: Seq<u8>) -> int {
    if neg {
        -(digits_value(e, 10) as int)
    } else {
        digits_value(e, 10) as int
    }
}

/// The largest exponent magnitude the scanner keeps exactly; larger ones
/// decide the comparison by their sign alone.
pub open spec fn exponent_cap() -> nat {
    0x1_0000_0000_0000_0000_0000
}

/// Whether the decimal number with mantissa digits `m` (the integer digits
/// followed by the `f` fraction digits) and the given exponent rounds to
/// infinity as a double. An exponent marker without digits leaves the text
/// unreadable as a number, which is reported the same way.
pub open spec fn decimal_overflows(m: Seq<u8>, f: nat, has_exp: bool, neg: bool, e: Seq<u8>) -> bool {
    if has_exp && e.len() == 0 {
        true
    } else {
        scaled_at_least(m, signed_exponent(neg, e) - f, double_limit_decimal(), 0, 10)
    }
}

/// Whether `m` (hexadecimal digits) times `2^e` is at least 2^1024 - 2^970,
/// the smallest number that rounds to infinity as a double.
pub open spec fn hex_value_overflows(m: Seq<u8>, e: int) -> bool {
    let mm = if e < 970 {
        e
    } else {
        970
    };
    digits_value(m, 16) * power(2, (e - mm) as nat) >= ((power(2, 54) - 1) as nat) * power(
        2,
        (970 - mm) as nat,
    )
}

/// Whether the hexadecimal number with mantissa digits `m` (`f` of them after
/// the point) and the given binary exponent rounds to infinity as a double. A
/// mantissa without digits, or an exponent marker without digits, leaves the
/// text unreadable as a number, which is reported the same way.
pub open spec fn hex_overflows(m: Seq<u8>, f: nat, has_exp: bool, neg: bool, e: Seq<u8>) -> bool {
    if m.len() == 0 || (has_exp && e.len() == 0) {
        true
    } else {
        hex_value_overflows(m, signed_exponent(neg, e) - 4 * f)
    }
}

/// The four binary digits of a hexadecimal digit.
pub open spec fn nibble_bits(h: u8) -> Seq<u8> {
    seq![h / 8, (h / 4) % 2, (h / 2) % 2, h % 2]
}

/// The binary digits of a sequence of hexadecimal digits.
pub open spec fn hex_bits(m: Seq<u8>) -> Seq<u8>
    decreases m.len(),
{
    if m.len() == 0 {
        seq![]
    } else {
        hex_bits(m.drop_last()) + nibble_bits(m.last())
    }
}

proof fn lemma_leading_zeros(d: Seq<u8>)
    ensures
        leading_zeros(d) <= d.len(),
        d =~= zero_digits(leading_zeros(d)) + d.skip(leading_zeros(d) as int),
        leading_zeros(d) < d.len() ==> d[leading_zeros(d) as int] != 0,
    decreases d.len(),
{
    if d.len() > 0 && d[0] == 0 {
        lemma_leading_zeros(d.drop_first());
        let k = leading_zeros(d.drop_first());
        assert(d.skip(k + 1 as int) =~= d.drop_first().skip(k as int));
        assert(d =~= zero_digits(k + 1) + d.skip(k + 1 as int)) by {
            assert forall|i: int| 0 <= i < d.len() implies d[i] == (zero_digits(k + 1) + d.skip(
                k + 1 as int,
            ))[i] by {
                if i > 0 {
                    assert(d[i] == d.drop_first()[i - 1]);
                }
            }
        }
    } else {
        assert(d.skip(0) =~= d);
    }
}

/// A huge exponent decides the comparison by its sign alone, so two huge
/// exponents of one sign give the same answer.
pub proof fn lemma_scaled_far(d: Seq<u8>, x1: int, x2: int, c: Seq<u8>, y: int, b: nat)
    requires
        b >= 2,
        digits_below(d, b),
        digits_below(c, b),
        c.len() >= 1,
        c[0] >= 1,
        d.len() <= 0x1_0000_0000_0000_0000_0,
        -0x1_0000_0000_0000_0000_0 <= c.len() + y <= 0x1_0000_0000_0000_0000_0,
        (x1 >= 0x80_0000_0000_0000_0000 && x2 >= 0x80_0000_0000_0000_0000) || (x1
            <= -0x80_0000_0000_0000_0000 && x2 <= -0x80_0000_0000_0000_0000),
    ensures
        scaled_at_least(d, x1, c, y, b) == scaled_at_least(d, x2, c, y, b),
{
    let k = leading_zeros(d);
    lemma_leading_zeros(d);
    let dz = d.skip(k as int);
    lemma_value_leading_zeros(k, dz, b);
    assert(digits_below(dz, b)) by {
        assert forall|j: int| 0 <= j < dz.len() implies (dz[j] as nat) < b by {
            assert(dz[j] == d[k + j]);
        }
    }
    if dz.len() == 0 {
        lemma_scaled_zero(dz, x1, c, y, b);
        lemma_scaled_zero(dz, x2, c, y, b);
    } else {
        assert(dz[0] == d[k as int]);
        if x1 >= 0x80_0000_0000_0000_0000 {
            lemma_scaled_longer(dz, x1, c, y, b);
            lemma_scaled_longer(dz, x2, c, y, b);
        } else {
            lemma_scaled_shorter(dz, x1, c, y, b);
            lemma_scaled_shorter(dz, x2, c, y, b);
        }
    }
}

proof fn lemma_nibble_bits(h: u8)
    requires
        h < 16,
    ensures
        digits_value(nibble_bits(h), 2) == h,
        digits_below(nibble_bits(h), 2),
        nibble_bits(h).len() == 4,
{
    let (a0, a1, a2, a3) = (h / 8, (h / 4) % 2, (h / 2) % 2, h % 2);
    let s1 = seq![a0];
    let s2 = seq![a0, a1];
    let s3 = seq![a0, a1, a2];
    let s4 = nibble_bits(h);
    assert(s1.drop_last() =~= Seq::<u8>::empty());
    assert(s2.drop_last() =~= s1);
    assert(s3.drop_last() =~= s2);
    assert(s4.drop_last() =~= s3);
    assert(digits_value(Seq::<u8>::empty(), 2) == 0);
    assert(digits_value(s1, 2) == a0 as nat);
    assert(digits_value(s2, 2) == digits_value(s1, 2) * 2 + a1 as nat);
    assert(digits_value(s3, 2) == digits_value(s2, 2) * 2 + a2 as nat);
    assert(digits_value(s4, 2) == digits_value(s3, 2) * 2 + a3 as nat);
    assert(((((h / 8) as nat) * 2 + ((h / 4) % 2) as nat) * 2 + ((h / 2) % 2) as nat) * 2 + (h
        % 2) as nat == h as nat) by {
        if h == 0 {
        } else if h == 1 {
        } else if h == 2 {
        } else if h == 3 {
        } else if h == 4 {
        } else if h == 5 {
        } else if h == 6 {
        } else if h == 7 {
        } else if h == 8 {
        } else if h == 9 {
        } else if h == 10 {
        } else if h == 11 {
        } else if h == 12 {
        } else if h == 13 {
        } else if h == 14 {
        } else {
            assert(h == 15);
        }
    }
    assert(h / 8 < 2);
}

proof fn lemma_hex_bits(m: Seq<u8>)
    requires
        digits_below(m, 16),
    ensures
        digits_value(hex_bits(m), 2) == digits_value(m, 16),
        digits_below(hex_bits(m), 2),
        hex_bits(m).len() == 4 * m.len(),
    decreases m.len(),
{
    if m.len() > 0 {
        let m2 = m.drop_last();
        assert(digits_below(m2, 16)) by {
            assert forall|i: int| 0 <= i < m2.len() implies (m2[i] as nat) < 16 by {
                assert(m2[i] == m[i]);
            }
        }
        lemma_hex_bits(m2);
        assert(m.last() == m[m.len() - 1]);
        lemma_nibble_bits(m.last());
        lemma_value_append(hex_bits(m2), nibble_bits(m.last()), 2);
        assert(power(2, 4) == 16) by {
            reveal_with_fuel(power, 5);
        }
        let hb = hex_bits(m);
        assert(digits_below(hb, 2)) by {
            assert forall|i: int| 0 <= i < hb.len() implies (hb[i] as nat) < 2 by {
                if i < hex_bits(m2).len() {
                    assert(hb[i] == hex_bits(m2)[i]);
                } else {
                    assert(hb[i] == nibble_bits(m.last())[i - hex_bits(m2).len()]);
                }
            }
        }
    }
}

proof fn lemma_one_digits(k: nat)
    ensures
        digits_value(one_digits(k), 2) + 1 == power(2, k),
    decreases k,
{
    if k > 0 {
        assert(one_digits(k).drop_last() =~= one_digits((k - 1) as nat));
        assert(one_digits(k).last() == 1);
        lemma_one_digits((k - 1) as nat);
    }
}

/// `min(value of e, exponent_cap())`, computed without overflow.
pub fn capped_value(e: &Vec<u8>) -> (r: u128)
    requires
        digits_below(e@, 10),
    ensures
        r == if digits_value(e@, 10) < exponent_cap() {
            digits_value(e@, 10)
        } else {
            exponent_cap()
        },
{
    let cap: u128 = 0x1_0000_0000_0000_0000_0000;
    let mut v: u128 = 0;
    let mut i: usize = 0;
    while i < e.len()
        invariant
            i <= e@.len(),
            digits_below(e@, 10),
            cap == exponent_cap(),
            v == if digits_value(e@.take(i as int), 10) < cap {
                digits_value(e@.take(i as int), 10)
            } else {
                cap as nat
            },
        decreases e@.len() - i,
    {
        let d = e[i] as u128;
        proof {
            assert(e@.take(i + 1).drop_last() =~= e@.take(i as int));
            assert(e@.take(i + 1).last() == e@[i as int]);
            assert((e@[i as int] as nat) < 10);
        }
        if v >= cap {
            v = cap;
        } else {
            let t = v * 10 + d;
            if t >= cap {
                v = cap;
            } else {
                v = t;
            }
        }
        i = i + 1;
    }
    proof {
        assert(e@.take(e@.len() as int) =~= e@);
    }
    v
}

/// Decides [`decimal_overflows`].
pub fn decimal_overflows_exec(m: &Vec<u8>, f: usize, has_exp: bool, neg: bool, e: &Vec<u8>) -> (r:
    bool)
    requires
        digits_below(m@, 10),
        digits_below(e@, 10),
        f <= m@.len(),
        m@.len() <= 0xFFFF_FFFF_FFFF_FFFF,
    ensures
        r == decimal_overflows(m@, f as nat, has_exp, neg, e@),
{
    if has_exp && e.len() == 0 {
        return true;
    }
    let ev = capped_value(e);
    let sv: i128 = if neg {
        -(ev as i128)
    } else {
        ev as i128
    };
    let x: i128 = sv - f as i128;
    let lim = double_limit_decimal_digits();
    proof {
        lemma_double_limit_decimal();
    }
    let r = scaled_at_least_exec(m, x, &lim, 0, 10);
    proof {
        let xe = signed_exponent(neg, e@) - f;
        if digits_value(e@, 10) >= exponent_cap() {
            lemma_scaled_far(m@, x as int, xe, lim@, 0, 10);
        }
    }
    r
}

/// Decides [`hex_overflows`].
pub fn hex_overflows_exec(m: &Vec<u8>, f: usize, has_exp: bool, neg: bool, e: &Vec<u8>) -> (r: bool)
    requires
        digits_below(m@, 16),
        digits_below(e@, 10),
        f <= m@.len(),
        m@.len() <= 0xFFFF_FFFF_FFFF_FFFF,
    ensures
        r == hex_overflows(m@, f as nat, has_exp, neg, e@),
{
    if m.len() == 0 || (has_exp && e.len() == 0) {
        return true;
    }
    let ev = capped_value(e);
    let sv: i128 = if neg {
        -(ev as i128)
    } else {
        ev as i128
    };
    let x: i128 = sv - 4 * (f as i128);
    let mut bits: Vec<u8> = Vec::new();
    let mut i: usize = 0;
    while i < m.len()
        invariant
            i <= m@.len(),
            digits_below(m@, 16),
            bits@ == hex_bits(m@.take(i as int)),
        decreases m@.len() - i,
    {
        let h = m[i];
        proof {
            assert(m@.take(i + 1).drop_last() =~= m@.take(i as int));
            assert(m@.take(i + 1).last() == h);
            assert((h as nat) < 16);
        }
        bits.push(h / 8);
        bits.push((h / 4) % 2);
        bits.push((h / 2) % 2);
        bits.push(h % 2);
        proof {
            assert(bits@ =~= hex_bits(m@.take(i as int)) + nibble_bits(h));
        }
        i = i + 1;
    }
    let mut ones: Vec<u8> = Vec::new();
    let mut j: usize = 0;
    while j < 54
        invariant
            j <= 54,
            ones@ == one_digits(j as nat),
        decreases 54 - j,
    {
        ones.push(1);
        j = j + 1;
        proof {
            assert(ones@ =~= one_digits(j as nat));
        }
    }
    proof {
        assert(m@.take(m@.len() as int) =~= m@);
        lemma_hex_bits(m@);
        lemma_one_digits(54);
        assert(digits_below(ones@, 2));
        assert(ones@[0] == 1);
    }
    let r = scaled_at_least_exec(&bits, x, &ones, 970, 2);
    proof {
        let xe = signed_exponent(neg, e@) - 4 * f;
        if digits_value(e@, 10) >= exponent_cap() {
            lemma_scaled_far(bits@, x as int, xe, ones@, 970, 2);
        }
        assert(scaled_at_least(bits@, xe, ones@, 970, 2) == hex_value_overflows(m@, xe));
    }
    r
}

proof fn lemma_double_limit_decimal()
    ensures
        digits_below(double_limit_decimal(), 10),
        double_limit_decimal().len() == 309,
        double_limit_decimal()[0] == 1,
{
    let s = double_limit_decimal();
    assert forall|i: int| 0 <= i < s.len() implies (s[i] as nat) < 10 by {
        assert(s[i] <= 9);
    }
}

} // verus!
