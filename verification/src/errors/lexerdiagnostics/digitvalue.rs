use vstd::prelude::*;

verus! {

/// `b` raised to the power `e`.
pub open spec fn power(b: nat, e: nat) -> nat
    decreases e,
{
    if e == 0 {
        1
    } else {
        b * power(b, (e - 1) as nat)
    }
}

/// The value of a digit sequence (most significant digit first) in base `b`.
pub open spec fn digits_value(s: Seq<u8>, b: nat) -> nat
    decreases s.len(),
{
    if s.len() == 0 {
        0
    } else {
        digits_value(s.drop_last(), b) * b + s.last() as nat
    }
}

/// Every digit of `s` is below the base `b`.
pub open spec fn digits_below(s: Seq<u8>, b: nat) -> bool {
    forall|i: int| 0 <= i < s.len() ==> (s[i] as nat) < b
}

/// `k` zero digits.
pub open spec fn zero_digits(k: nat) -> Seq<u8> {
    Seq::new(k, |i: int| 0u8)
}

/// Whether `d * b^x >= c * b^y`, both sides read as exact numbers
/// (the exponents may be negative: both sides are scaled by the smaller one).
pub open spec fn scaled_at_least(d: Seq<u8>, x: int, c: Seq<u8>, y: int, b: nat) -> bool {
    let m = if x < y {
        x
    } else {
        y
    };
    digits_value(d, b) * power(b, (x - m) as nat) >= digits_value(c, b) * power(b, (y - m) as nat)
}

pub proof fn lemma_power_positive(b: nat, e: nat)
    requires
        b >= 1,
    ensures
        power(b, e) >= 1,
    decreases e,
{
    if e > 0 {
        lemma_power_positive(b, (e - 1) as nat);
        assert(b * power(b, (e - 1) as nat) >= 1) by (nonlinear_arith)
            requires
                b >= 1,
                power(b, (e - 1) as nat) >= 1,
        ;
    }
}

pub proof fn lemma_power_add(b: nat, e1: nat, e2: nat)
    ensures
        power(b, e1 + e2) == power(b, e1) * power(b, e2),
    decreases e1,
{
    if e1 > 0 {
        lemma_power_add(b, (e1 - 1) as nat, e2);
        assert(power(b, e1) == b * power(b, (e1 - 1) as nat));
        assert(power(b, e1 + e2) == b * power(b, (e1 - 1 + e2) as nat));
        assert(power(b, (e1 - 1 + e2) as nat) == power(b, (e1 - 1) as nat) * power(b, e2));
        assert(b * (power(b, (e1 - 1) as nat) * power(b, e2)) == (b * power(b, (e1 - 1) as nat))
            * power(b, e2)) by (nonlinear_arith);
    } else {
        assert(power(b, 0) == 1);
        assert(e1 + e2 == e2);
    }
}

pub proof fn lemma_power_mono(b: nat, e1: nat, e2: nat)
    requires
        b >= 1,
        e1 <= e2,
    ensures
        power(b, e1) <= power(b, e2),
{
    lemma_power_add(b, e1, (e2 - e1) as nat);
    lemma_power_positive(b, (e2 - e1) as nat);
    lemma_power_positive(b, e1);
    assert(power(b, e1) * power(b, (e2 - e1) as nat) >= power(b, e1)) by (nonlinear_arith)
        requires
            power(b, (e2 - e1) as nat) >= 1,
    ;
}

/// Reading the concatenation `a + t` shifts `a` by the length of `t`.
pub proof fn lemma_value_append(a: Seq<u8>, t: Seq<u8>, b: nat)
    ensures
        digits_value(a + t, b) == digits_value(a, b) * power(b, t.len()) + digits_value(t, b),
    decreases t.len(),
{
    if t.len() == 0 {
        assert(a + t =~= a);
        assert(power(b, 0) == 1);
        assert(digits_value(t, b) == 0);
    } else {
        let t2 = t.drop_last();
        lemma_value_append(a, t2, b);
        assert((a + t).drop_last() =~= a + t2);
        assert((a + t).last() == t.last());
        assert(digits_value(a + t, b) == digits_value(a + t2, b) * b + t.last() as nat);
        assert(digits_value(t, b) == digits_value(t2, b) * b + t.last() as nat);
        let va = digits_value(a, b);
        let p = power(b, t2.len());
        assert(power(b, t.len()) == b * p);
        assert((va * p + digits_value(t2, b)) * b + t.last() as nat == va * (b * p) + (digits_value(
            t2,
            b,
        ) * b + t.last() as nat)) by (nonlinear_arith);
    }
}

pub proof fn lemma_value_upper(s: Seq<u8>, b: nat)
    requires
        digits_below(s, b),
    ensures
        digits_value(s, b) < power(b, s.len()),
    decreases s.len(),
{
    if s.len() > 0 {
        let s2 = s.drop_last();
        assert(digits_below(s2, b)) by {
            assert forall|i: int| 0 <= i < s2.len() implies (s2[i] as nat) < b by {
                assert(s2[i] == s[i]);
            }
        }
        lemma_value_upper(s2, b);
        assert((s.last() as nat) < b) by {
            assert(s.last() == s[s.len() - 1]);
        }
        let v = digits_value(s2, b);
        let p = power(b, s2.len());
        assert(v * b + (s.last() as nat) < b * p) by (nonlinear_arith)
            requires
                v < p,
                (s.last() as nat) < b,
        ;
    }
}

pub proof fn lemma_zero_digits_value(k: nat, b: nat)
    ensures
        digits_value(zero_digits(k), b) == 0,
    decreases k,
{
    if k > 0 {
        assert(zero_digits(k).drop_last() =~= zero_digits((k - 1) as nat));
        assert(zero_digits(k).last() == 0);
        lemma_zero_digits_value((k - 1) as nat, b);
        assert(digits_value(zero_digits(k), b) == digits_value(zero_digits((k - 1) as nat), b) * b
            + zero_digits(k).last() as nat);
    } else {
        assert(zero_digits(k).len() == 0);
    }
}

/// A sequence whose first digit is not zero is at least `b^(len - 1)`.
pub proof fn lemma_value_lower(s: Seq<u8>, b: nat)
    requires
        s.len() >= 1,
        s[0] >= 1,
        b >= 1,
    ensures
        digits_value(s, b) >= power(b, (s.len() - 1) as nat),
{
    let head = s.take(1);
    let rest = s.skip(1);
    assert(s =~= head + rest);
    lemma_value_append(head, rest, b);
    assert(head.drop_last() =~= Seq::<u8>::empty());
    assert(head.last() == s[0]);
    assert(digits_value(head.drop_last(), b) == 0);
    assert(digits_value(head, b) == digits_value(head.drop_last(), b) * b + head.last() as nat);
    assert(0 * b == 0);
    assert(digits_value(head, b) == s[0] as nat);
    let p = power(b, rest.len());
    assert((s[0] as nat) * p >= p) by (nonlinear_arith)
        requires
            s[0] >= 1,
    ;
}

/// Zero digits in front do not change the value.
pub proof fn lemma_value_leading_zeros(k: nat, s: Seq<u8>, b: nat)
    ensures
        digits_value(zero_digits(k) + s, b) == digits_value(s, b),
{
    lemma_value_append(zero_digits(k), s, b);
    lemma_zero_digits_value(k, b);
}

/// Zero digits at the end multiply the value by `b^k`.
pub proof fn lemma_value_trailing_zeros(s: Seq<u8>, k: nat, b: nat)
    ensures
        digits_value(s + zero_digits(k), b) == digits_value(s, b) * power(b, k),
{
    lemma_value_append(s, zero_digits(k), b);
    lemma_zero_digits_value(k, b);
}

/// Sequences of one length compare as their first differing digit.
pub proof fn lemma_value_first_difference(s: Seq<u8>, t: Seq<u8>, i: int, b: nat)
    requires
        s.len() == t.len(),
        0 <= i < s.len(),
        s.take(i) == t.take(i),
        s[i] > t[i],
        digits_below(t, b),
        b >= 1,
    ensures
        digits_value(s, b) > digits_value(t, b),
{
    let n = s.len();
    let r = (n - i - 1) as nat;
    let sa = s.take(i + 1);
    let sb = s.skip(i + 1);
    let ta = t.take(i + 1);
    let tb = t.skip(i + 1);
    assert(s =~= sa + sb);
    assert(t =~= ta + tb);
    lemma_value_append(sa, sb, b);
    lemma_value_append(ta, tb, b);
    assert(sa.drop_last() =~= s.take(i));
    assert(ta.drop_last() =~= t.take(i));
    assert(digits_below(tb, b)) by {
        assert forall|j: int| 0 <= j < tb.len() implies (tb[j] as nat) < b by {
            assert(tb[j] == t[i + 1 + j]);
        }
    }
    lemma_value_upper(tb, b);
    let pre = digits_value(s.take(i), b);
    let p = power(b, r);
    assert(sb.len() == r && tb.len() == r);
    let vs = (pre * b + s[i] as nat) * p + digits_value(sb, b);
    let vt = (pre * b + t[i] as nat) * p + digits_value(tb, b);
    assert(digits_value(s, b) == vs);
    assert(digits_value(t, b) == vt);
    assert(vs > vt) by (nonlinear_arith)
        requires
            s[i] as nat >= t[i] as nat + 1,
            digits_value(tb, b) < p,
            vs == (pre * b + s[i] as nat) * p + digits_value(sb, b),
            vt == (pre * b + t[i] as nat) * p + digits_value(tb, b),
    ;
}

/// Facts shared by the three cases of the scaled comparison.
pub proof fn lemma_scaled_facts(dz: Seq<u8>, x: int, c: Seq<u8>, y: int, b: nat)
    requires
        b >= 2,
        digits_below(dz, b),
        digits_below(c, b),
        c.len() >= 1,
        c[0] >= 1,
    ensures
        digits_value(dz, b) < power(b, dz.len()),
        digits_value(c, b) < power(b, c.len()),
        digits_value(c, b) >= power(b, (c.len() - 1) as nat),
        digits_value(c, b) >= 1,
        power(b, (x - (if x < y { x } else { y })) as nat) >= 1,
        power(b, (y - (if x < y { x } else { y })) as nat) >= 1,
{
    let m = if x < y {
        x
    } else {
        y
    };
    lemma_power_positive(b, (x - m) as nat);
    lemma_power_positive(b, (y - m) as nat);
    lemma_value_upper(dz, b);
    lemma_value_upper(c, b);
    lemma_value_lower(c, b);
    lemma_power_positive(b, (c.len() - 1) as nat);
}

/// A zero left side is below any positive right side.
pub proof fn lemma_scaled_zero(dz: Seq<u8>, x: int, c: Seq<u8>, y: int, b: nat)
    requires
        b >= 2,
        dz.len() == 0,
        digits_below(c, b),
        c.len() >= 1,
        c[0] >= 1,
    ensures
        !scaled_at_least(dz, x, c, y, b),
{
    lemma_scaled_facts(dz, x, c, y, b);
    let m = if x < y {
        x
    } else {
        y
    };
    let pc = power(b, (y - m) as nat);
    let vc = digits_value(c, b);
    assert(digits_value(dz, b) == 0);
    assert(vc * pc >= 1) by (nonlinear_arith)
        requires
            vc >= 1,
            pc >= 1,
    ;
}

/// A left side with more digits in total is the larger one.
pub proof fn lemma_scaled_longer(dz: Seq<u8>, x: int, c: Seq<u8>, y: int, b: nat)
    requires
        b >= 2,
        dz.len() >= 1,
        dz[0] >= 1,
        digits_below(dz, b),
        digits_below(c, b),
        c.len() >= 1,
        c[0] >= 1,
        dz.len() + x > c.len() + y,
    ensures
        scaled_at_least(dz, x, c, y, b),
{
    lemma_scaled_facts(dz, x, c, y, b);
    lemma_value_lower(dz, b);
    let m = if x < y {
        x
    } else {
        y
    };
    let l = dz.len();
    let pd = power(b, (x - m) as nat);
    let pc = power(b, (y - m) as nat);
    let vd = digits_value(dz, b);
    let vc = digits_value(c, b);
    let e_low = (l - 1 + x - m) as nat;
    let e_c = (c.len() + y - m) as nat;
    lemma_power_add(b, (l - 1) as nat, (x - m) as nat);
    lemma_power_add(b, c.len(), (y - m) as nat);
    lemma_power_mono(b, e_c, e_low);
    let pl = power(b, (l - 1) as nat);
    let pcl = power(b, c.len());
    assert(vd * pd >= pl * pd) by (nonlinear_arith)
        requires
            vd >= pl,
    ;
    assert(vc * pc < pcl * pc) by (nonlinear_arith)
        requires
            vc < pcl,
            pc >= 1,
    ;
}

/// A left side with fewer digits in total is the smaller one.
pub proof fn lemma_scaled_shorter(dz: Seq<u8>, x: int, c: Seq<u8>, y: int, b: nat)
    requires
        b >= 2,
        dz.len() >= 1,
        dz[0] >= 1,
        digits_below(dz, b),
        digits_below(c, b),
        c.len() >= 1,
        c[0] >= 1,
        dz.len() + x < c.len() + y,
    ensures
        !scaled_at_least(dz, x, c, y, b),
{
    lemma_scaled_facts(dz, x, c, y, b);
    let m = if x < y {
        x
    } else {
        y
    };
    let l = dz.len();
    let pd = power(b, (x - m) as nat);
    let pc = power(b, (y - m) as nat);
    let vd = digits_value(dz, b);
    let vc = digits_value(c, b);
    let e_d = (l + x - m) as nat;
    let e_c = (c.len() - 1 + y - m) as nat;
    lemma_power_add(b, l, (x - m) as nat);
    lemma_power_add(b, (c.len() - 1) as nat, (y - m) as nat);
    lemma_power_mono(b, e_d, e_c);
    let pl = power(b, l);
    let pcl = power(b, (c.len() - 1) as nat);
    assert(vd * pd < pl * pd) by (nonlinear_arith)
        requires
            vd < pl,
            pd >= 1,
    ;
    assert(vc * pc >= pcl * pc) by (nonlinear_arith)
        requires
            vc >= pcl,
    ;
}

/// With equal totals the comparison is that of the digit strings padded to
/// one length.
pub proof fn lemma_scaled_padded(dz: Seq<u8>, x: int, c: Seq<u8>, y: int, b: nat, n: nat)
    requires
        dz.len() + x == c.len() + y,
        n == if dz.len() > c.len() {
            dz.len()
        } else {
            c.len()
        },
    ensures
        scaled_at_least(dz, x, c, y, b) == (digits_value(dz + zero_digits((n - dz.len()) as nat), b)
            >= digits_value(c + zero_digits((n - c.len()) as nat), b)),
{
    let m = if x < y {
        x
    } else {
        y
    };
    assert(x - m == n - dz.len());
    assert(y - m == n - c.len());
    lemma_value_trailing_zeros(dz, (n - dz.len()) as nat, b);
    lemma_value_trailing_zeros(c, (n - c.len()) as nat, b);
}

/// Decides `d * b^x >= c * b^y` exactly on digit sequences, without
/// building the numbers.
pub fn scaled_at_least_exec(d: &Vec<u8>, x: i128, c: &Vec<u8>, y: i128, b: u8) -> (r: bool)
    requires
        b >= 2,
        digits_below(d@, b as nat),
        digits_below(c@, b as nat),
        c.len() >= 1,
        c@[0] >= 1,
        -0x1_0000_0000_0000_0000_0000_0000 <= x <= 0x1_0000_0000_0000_0000_0000_0000,
        -0x1_0000_0000_0000_0000_0000_0000 <= y <= 0x1_0000_0000_0000_0000_0000_0000,
    ensures
        r == scaled_at_least(d@, x as int, c@, y as int, b as nat),
{
    let bn: Ghost<nat> = Ghost(b as nat);
    let mut k: usize = 0;
    while k < d.len() && d[k] == 0
        invariant
            k <= d@.len(),
            forall|j: int| 0 <= j < k ==> d@[j] == 0,
        decreases d@.len() - k,
    {
        k = k + 1;
    }
    let ghost dz = d@.skip(k as int);
    proof {
        assert(d@ =~= zero_digits(k as nat) + dz);
        lemma_value_leading_zeros(k as nat, dz, bn@);
        assert(digits_below(dz, bn@)) by {
            assert forall|j: int| 0 <= j < dz.len() implies (dz[j] as nat) < bn@ by {
                assert(dz[j] == d@[k + j]);
            }
        }
        assert(scaled_at_least(d@, x as int, c@, y as int, b as nat) == scaled_at_least(
            dz,
            x as int,
            c@,
            y as int,
            b as nat,
        ));
    }
    let dlen = d.len();
    let l: usize = dlen - k;
    if l == 0 {
        proof {
            lemma_scaled_zero(dz, x as int, c@, y as int, bn@);
        }
        return false;
    }
    proof {
        assert(dz[0] == d@[k as int]);
    }
    let lhs: i128 = l as i128 + x;
    let rhs: i128 = c.len() as i128 + y;
    if lhs > rhs {
        proof {
            lemma_scaled_longer(dz, x as int, c@, y as int, bn@);
        }
        return true;
    }
    if lhs < rhs {
        proof {
            lemma_scaled_shorter(dz, x as int, c@, y as int, bn@);
        }
        return false;
    }
    let n: usize = if l > c.len() {
        l
    } else {
        c.len()
    };
    let ghost dd = dz + zero_digits((n - l) as nat);
    let ghost cc = c@ + zero_digits((n - c@.len()) as nat);
    proof {
        lemma_scaled_padded(dz, x as int, c@, y as int, bn@, n as nat);
        assert(digits_below(dd, bn@)) by {
            assert forall|j: int| 0 <= j < dd.len() implies (dd[j] as nat) < bn@ by {
                if j < dz.len() {
                    assert(dd[j] == dz[j]);
                } else {
                    assert(dd[j] == 0);
                }
            }
        }
        assert(digits_below(cc, bn@)) by {
            assert forall|j: int| 0 <= j < cc.len() implies (cc[j] as nat) < bn@ by {
                if j < c@.len() {
                    assert(cc[j] == c@[j]);
                } else {
                    assert(cc[j] == 0);
                }
            }
        }
    }
    let mut i: usize = 0;
    while i < n
        invariant
            i <= n,
            dd.len() == n,
            cc.len() == n,
            dd == dz + zero_digits((n - l) as nat),
            cc == c@ + zero_digits((n - c@.len()) as nat),
            dz == d@.skip(k as int),
            k + l == dlen,
            dlen == d@.len(),
            n >= c@.len(),
            n >= l,
            dd.take(i as int) == cc.take(i as int),
            digits_below(dd, bn@),
            digits_below(cc, bn@),
            bn@ == b as nat,
            b >= 2,
            scaled_at_least(d@, x as int, c@, y as int, b as nat) == (digits_value(dd, bn@)
                >= digits_value(cc, bn@)),
        decreases n - i,
    {
        let a = if i < l {
            let j: usize = k + i;
            d[j]
        } else {
            0
        };
        let e = if i < c.len() {
            c[i]
        } else {
            0
        };
        proof {
            if i < l {
                assert(dd[i as int] == dz[i as int]);
            } else {
                assert(dd[i as int] == 0);
            }
            if i < c@.len() {
                assert(cc[i as int] == c@[i as int]);
            } else {
                assert(cc[i as int] == 0);
            }
        }
        if a > e {
            proof {
                lemma_value_first_difference(dd, cc, i as int, bn@);
            }
            return true;
        }
        if a < e {
            proof {
                lemma_value_first_difference(cc, dd, i as int, bn@);
            }
            return false;
        }
        proof {
            assert(dd.take(i + 1) =~= dd.take(i as int).push(dd[i as int]));
            assert(cc.take(i + 1) =~= cc.take(i as int).push(cc[i as int]));
        }
        i = i + 1;
    }
    proof {
        assert(dd =~= dd.take(n as int));
        assert(cc =~= cc.take(n as int));
    }
    true
}

} // verus!
