//! Parts of a whole, in the arithmetic of double-precision numbers: a quotient and a
//! product of two such numbers are the exact ones, rounded to as many binary digits as
//! fit. A number is a whole one here, or a whole one over a power of two.

use vstd::arithmetic::div_mod::{
    lemma_div_denominator, lemma_div_is_ordered, lemma_fundamental_div_mod,
    lemma_fundamental_div_mod_converse,
};
use vstd::arithmetic::power2::{lemma_pow2_pos, lemma_pow2_unfold, pow2};
use vstd::prelude::*;

verus! {

/// One more than the largest number that the binary digits can hold.
pub const LIMIT: u64 = 0x20_0000_0000_0000;

/// Half of that: the smallest number that takes all the digits.
pub const HALF_LIMIT: u64 = 0x10_0000_0000_0000;

/// A fraction rounded to the nearest whole number, halves upwards.
pub open spec fn rounded(n: int, d: int) -> int {
    if 2 * (n % d) >= d {
        n / d + 1
    } else {
        n / d
    }
}

/// A fraction rounded to the nearest whole number, halves to the even one.
pub open spec fn nearest(n: int, d: int) -> int {
    if 2 * (n % d) > d || (2 * (n % d) == d && (n / d) % 2 == 1) {
        n / d + 1
    } else {
        n / d
    }
}

/// How many binary digits of a number do not fit.
pub open spec fn excess(n: int) -> nat
    decreases n,
{
    if n < LIMIT {
        0
    } else {
        excess(n / 2) + 1
    }
}

/// A whole number as a double-precision number.
pub open spec fn as_double(n: int) -> int {
    let unit = pow2(excess(n)) as int;
    nearest(n, unit) * unit
}

/// How often a part is to be doubled so that its quotient has all the digits that fit.
pub open spec fn scale(n: int, d: int) -> nat
    decreases (if n < d * HALF_LIMIT { d * HALF_LIMIT - n } else { 0 }),
{
    if n <= 0 || n >= d * HALF_LIMIT {
        0
    } else {
        scale(2 * n, d) + 1
    }
}

/// So much of a whole as a part is of another, in whole numbers: the quotient, the product
/// and the whole number nearest to it, one after the other. A part that is not less than
/// what it is of is all of it.
pub open spec fn share(part: int, of: int, whole: int) -> int {
    let n = as_double(part);
    let d = as_double(of);
    let w = as_double(whole);
    if n <= 0 {
        0
    } else if n >= d {
        w
    } else {
        let unit = pow2(scale(n, d)) as int;
        rounded(as_double(nearest(n * unit, d) * w), unit)
    }
}

/// What fits is a double-precision number as it is.
pub(crate) proof fn lemma_small(n: int)
    requires
        0 <= n < LIMIT,
    ensures
        as_double(n) == n,
{
    assert(pow2(0) == 1) by {
        vstd::arithmetic::power2::lemma2_to64();
    }
    assert(excess(n) == 0);
    lemma_fundamental_div_mod_converse(n, 1, n, 0);
    assert(nearest(n, 1) == n);
    assert(n * 1 == n);
}

proof fn lemma_nearest_in_order(a: int, b: int, d: int)
    requires
        a <= b,
        0 < d,
    ensures
        nearest(a, d) <= nearest(b, d),
        a / d <= nearest(a, d) <= a / d + 1,
{
    lemma_div_is_ordered(a, b, d);
    lemma_fundamental_div_mod(a, d);
    lemma_fundamental_div_mod(b, d);
    if a / d == b / d {
        assert(a % d <= b % d);
    }
}

proof fn lemma_nearest_doubled(n: int, d: int)
    requires
        0 <= n,
        0 < d,
    ensures
        nearest(2 * n, 2 * d) == nearest(n, d),
{
    lemma_fundamental_div_mod(n, d);
    let q = n / d;
    let r = n % d;
    assert(2 * n == q * (2 * d) + 2 * r) by (nonlinear_arith)
        requires
            n == d * q + r,
    ;
    lemma_fundamental_div_mod_converse(2 * n, 2 * d, q, 2 * r);
}

proof fn lemma_excess(n: int)
    requires
        0 <= n,
    ensures
        n / (pow2(excess(n)) as int) < LIMIT,
        excess(n) > 0 ==> n / (pow2(excess(n)) as int) >= HALF_LIMIT,
        pow2(excess(n)) > 0,
    decreases n,
{
    lemma_pow2_pos(excess(n));
    if n < LIMIT {
        vstd::arithmetic::power2::lemma2_to64();
        assert(n / 1 == n);
    } else {
        lemma_excess(n / 2);
        let e = excess(n / 2);
        lemma_pow2_unfold(e + 1);
        lemma_pow2_pos(e);
        lemma_div_denominator(n, 2, pow2(e) as int);
        if e == 0 {
            vstd::arithmetic::power2::lemma2_to64();
        }
    }
}

proof fn lemma_excess_in_order(a: int, b: int)
    requires
        0 <= a <= b,
    ensures
        excess(a) <= excess(b),
    decreases b,
{
    if a >= LIMIT {
        lemma_excess_in_order(a / 2, b / 2);
    }
}

proof fn lemma_pow2_in_order(a: nat, b: nat)
    requires
        a < b,
    ensures
        2 * pow2(a) <= pow2(b),
{
    lemma_pow2_unfold(a + 1);
    if a + 1 < b {
        vstd::arithmetic::power2::lemma_pow2_strictly_increases(a + 1, b);
    }
}

/// A larger number is never a smaller double-precision one.
pub(crate) proof fn lemma_as_double_in_order(a: int, b: int)
    requires
        0 <= a <= b,
    ensures
        0 <= as_double(a) <= as_double(b),
{
    let u = pow2(excess(a)) as int;
    let v = pow2(excess(b)) as int;
    lemma_excess(a);
    lemma_excess(b);
    lemma_excess_in_order(a, b);
    lemma_nearest_in_order(a, a, u);
    lemma_nearest_in_order(b, b, v);
    assert(a / u >= 0) by (nonlinear_arith)
        requires
            0 <= a,
            0 < u,
    ;
    let x = nearest(a, u);
    let y = nearest(b, v);
    assert(0 <= x * u) by (nonlinear_arith)
        requires
            0 <= x,
            0 < u,
    ;
    if excess(a) == excess(b) {
        lemma_nearest_in_order(a, b, u);
        assert(x * u <= y * u) by (nonlinear_arith)
            requires
                x <= y,
                0 < u,
        ;
    } else {
        lemma_pow2_in_order(excess(a), excess(b));
        assert(x <= LIMIT && y >= HALF_LIMIT);
        assert(x * u <= y * v) by (nonlinear_arith)
            requires
                x <= 2 * HALF_LIMIT,
                y >= HALF_LIMIT,
                2 * u <= v,
                0 < u,
        ;
    }
}

/// What is doubled stays the double of it.
proof fn lemma_as_double_doubled(n: int)
    requires
        0 <= n,
    ensures
        as_double(2 * n) == 2 * as_double(n),
{
    if 2 * n < LIMIT {
        lemma_small(2 * n);
        lemma_small(n);
    } else {
        assert((2 * n) / 2 == n);
        assert(excess(2 * n) == excess(n) + 1);
        let u = pow2(excess(n)) as int;
        lemma_pow2_unfold(excess(n) + 1);
        lemma_pow2_pos(excess(n));
        lemma_nearest_doubled(n, u);
        let x = nearest(n, u);
        assert(x * (2 * u) == 2 * (x * u)) by (nonlinear_arith);
    }
}

proof fn lemma_as_double_scaled(n: int, k: nat)
    requires
        0 <= n,
    ensures
        as_double(n * pow2(k)) == as_double(n) * pow2(k),
    decreases k,
{
    if k == 0 {
        vstd::arithmetic::power2::lemma2_to64();
    } else {
        let j = (k - 1) as nat;
        lemma_as_double_scaled(n, j);
        lemma_pow2_unfold(k);
        let p = pow2(j) as int;
        assert(0 <= n * p) by (nonlinear_arith)
            requires
                0 <= n,
                0 <= p,
        ;
        lemma_as_double_doubled(n * p);
        assert(n * (2 * p) == 2 * (n * p)) by (nonlinear_arith);
        let a = as_double(n);
        assert(a * (2 * p) == 2 * (a * p)) by (nonlinear_arith);
    }
}

/// A double-precision number is one already.
proof fn lemma_as_double_again(n: int)
    requires
        0 <= n,
    ensures
        as_double(as_double(n)) == as_double(n),
        n < LIMIT ==> as_double(n) == n,
{
    if n < LIMIT {
        lemma_small(n);
    }
    let e = excess(n);
    let u = pow2(e) as int;
    lemma_excess(n);
    lemma_nearest_in_order(n, n, u);
    assert(n / u >= 0) by (nonlinear_arith)
        requires
            0 <= n,
            0 < u,
    ;
    let x = nearest(n, u);
    if x < LIMIT {
        lemma_small(x);
        lemma_as_double_scaled(x, e);
    } else {
        assert(x == LIMIT);
        assert(pow2(53) == LIMIT) by {
            vstd::arithmetic::power2::lemma2_to64_rest();
        }
        lemma_as_double_scaled(1, 53);
        lemma_small(1);
        assert(1 * pow2(53) == LIMIT);
        lemma_as_double_scaled(x, e);
    }
}

proof fn lemma_scale(n: int, d: int)
    requires
        0 < n < d * HALF_LIMIT,
    ensures
        d * HALF_LIMIT <= n * pow2(scale(n, d)) < d * LIMIT,
    decreases d * HALF_LIMIT - n,
{
    let k = scale(2 * n, d);
    let p = pow2(k) as int;
    lemma_pow2_unfold(k + 1);
    assert(n * (2 * p) == (2 * n) * p) by (nonlinear_arith);
    assert(d * LIMIT == 2 * (d * HALF_LIMIT)) by (nonlinear_arith);
    if 2 * n < d * HALF_LIMIT {
        lemma_scale(2 * n, d);
    } else {
        vstd::arithmetic::power2::lemma2_to64();
        assert(p == 1);
    }
}

proof fn lemma_scale_in_order(a: int, b: int, d: int)
    requires
        0 < a <= b < d * HALF_LIMIT,
    ensures
        scale(a, d) >= scale(b, d),
    decreases d * HALF_LIMIT - a,
{
    if 2 * b < d * HALF_LIMIT {
        lemma_scale_in_order(2 * a, 2 * b, d);
    } else {
        assert(scale(2 * b, d) == 0);
    }
}

/// The quotient of a part and what it is of: as many digits as fit, and no more than one.
proof fn lemma_quotient(n: int, d: int)
    requires
        0 < n < d,
    ensures
        ({
            let unit = pow2(scale(n, d)) as int;
            let m = nearest(n * unit, d);
            &&& HALF_LIMIT <= m <= LIMIT
            &&& LIMIT <= unit
            &&& d * HALF_LIMIT <= n * unit < d * LIMIT
        }),
{
    let unit = pow2(scale(n, d)) as int;
    let x = n * unit;
    assert(n < d * HALF_LIMIT) by (nonlinear_arith)
        requires
            0 < n < d,
    ;
    lemma_scale(n, d);
    lemma_nearest_in_order(x, x, d);
    lemma_fundamental_div_mod(x, d);
    let q = x / d;
    assert(HALF_LIMIT <= q < LIMIT) by (nonlinear_arith)
        requires
            d * HALF_LIMIT <= x < d * LIMIT,
            x == d * q + x % d,
            0 <= x % d < d,
    ;
    assert(unit > HALF_LIMIT) by (nonlinear_arith)
        requires
            d * HALF_LIMIT <= n * unit,
            0 < n < d,
    ;
    // The first power of two above the half is the whole.
    let k = scale(n, d);
    if k <= 52 {
        assert(pow2(52) == HALF_LIMIT) by {
            vstd::arithmetic::power2::lemma2_to64_rest();
        }
        if k < 52 {
            lemma_pow2_in_order(k, 52);
        }
    } else {
        assert(pow2(53) == LIMIT) by {
            vstd::arithmetic::power2::lemma2_to64_rest();
        }
        if k > 53 {
            lemma_pow2_in_order(53, k);
        }
    }
}

proof fn lemma_rounded_in_order(a: int, b: int, c: int, d: int)
    requires
        0 <= a,
        0 <= b,
        0 < c,
        0 < d,
        a * d <= b * c,
    ensures
        rounded(a, c) <= rounded(b, d),
{
    lemma_fundamental_div_mod(a, c);
    lemma_fundamental_div_mod(b, d);
    let p = a / c;
    let q = b / d;
    let x = a % c;
    let y = b % d;
    if p > q {
        assert(p * d <= b) by (nonlinear_arith)
            requires
                a == c * p + x,
                0 <= x,
                a * d <= b * c,
                0 < c,
                0 < d,
        ;
        assert(false) by (nonlinear_arith)
            requires
                p >= q + 1,
                p * d <= b,
                b == d * q + y,
                y < d,
                0 < d,
        ;
    }
    if p == q && 2 * x >= c {
        assert(x * d <= y * c) by (nonlinear_arith)
            requires
                a == c * p + x,
                b == d * p + y,
                a * d <= b * c,
        ;
        assert(2 * y >= d) by (nonlinear_arith)
            requires
                x * d <= y * c,
                2 * x >= c,
                0 < c,
                0 < d,
        ;
    }
}

/// A larger part of the same is never a smaller share.
pub proof fn a_larger_part_is_no_smaller_share(a: int, b: int, of: int, whole: int)
    requires
        0 <= a <= b,
        0 <= of,
        0 <= whole,
    ensures
        0 <= share(a, of, whole) <= share(b, of, whole) <= as_double(whole),
{
    lemma_as_double_in_order(a, b);
    lemma_as_double_in_order(of, of);
    lemma_as_double_in_order(whole, whole);
    let n = as_double(a);
    let m = as_double(b);
    let d = as_double(of);
    let w = as_double(whole);
    lemma_as_double_again(whole);
    if 0 < n < d {
        lemma_share(n, d, w);
    }
    if 0 < m < d {
        lemma_share(m, d, w);
    }
    if 0 < n && m < d {
        assert(m < d * HALF_LIMIT) by (nonlinear_arith)
            requires
                0 < m < d,
        ;
        lemma_scale_in_order(n, m, d);
        let j = scale(n, d);
        let k = scale(m, d);
        let u = pow2(j) as int;
        let v = pow2(k) as int;
        let x = nearest(n * u, d);
        let y = nearest(m * v, d);
        lemma_quotient(n, d);
        lemma_quotient(m, d);
        assert(x * v <= y * u) by {
            if j == k {
                assert(n * u <= m * u) by (nonlinear_arith)
                    requires
                        n <= m,
                        0 < u,
                ;
                lemma_nearest_in_order(n * u, m * u, d);
                assert(x * v <= y * u) by (nonlinear_arith)
                    requires
                        x <= y,
                        u == v,
                        0 < u,
                ;
            } else {
                lemma_pow2_in_order(k, j);
                assert(x * v <= y * u) by (nonlinear_arith)
                    requires
                        x <= 2 * HALF_LIMIT,
                        y >= HALF_LIMIT,
                        2 * v <= u,
                        0 < v,
                ;
            }
        }
        assert(0 <= x * w && 0 <= y * w) by (nonlinear_arith)
            requires
                0 <= x,
                0 <= y,
                0 <= w,
        ;
        assert((x * w) * v <= (y * w) * u) by (nonlinear_arith)
            requires
                x * v <= y * u,
                0 <= w,
        ;
        assert(0 <= (x * w) * v) by (nonlinear_arith)
            requires
                0 <= x * w,
                0 < v,
        ;
        lemma_as_double_in_order((x * w) * v, (y * w) * u);
        lemma_as_double_scaled(x * w, k);
        lemma_as_double_scaled(y * w, j);
        lemma_as_double_in_order(x * w, x * w);
        lemma_as_double_in_order(y * w, y * w);
        lemma_rounded_in_order(as_double(x * w), as_double(y * w), u, v);
    }
}

/// A share is no more than the whole.
proof fn lemma_share(n: int, d: int, w: int)
    requires
        0 < n < d,
        0 <= w,
        as_double(w) == w,
    ensures
        ({
            let unit = pow2(scale(n, d)) as int;
            let p = nearest(n * unit, d) * w;
            0 <= p && 0 <= as_double(p) && 0 <= rounded(as_double(p), unit) <= w
        }),
{
    let k = scale(n, d);
    let unit = pow2(k) as int;
    let m = nearest(n * unit, d);
    lemma_quotient(n, d);
    let p = m * w;
    assert(0 <= p <= w * unit) by (nonlinear_arith)
        requires
            p == m * w,
            0 <= m <= unit,
            0 <= w,
    ;
    lemma_as_double_in_order(p, w * unit);
    lemma_as_double_scaled(w, k);
    let x = as_double(p);
    lemma_fundamental_div_mod(x, unit);
    let q = x / unit;
    assert(0 <= q && (q < w || (q == w && x % unit == 0))) by (nonlinear_arith)
        requires
            0 <= x <= w * unit,
            x == unit * q + x % unit,
            0 <= x % unit < unit,
            0 < unit,
    ;
}

/// A bound on what is computed with: a number of as many digits as fit times another.
const MOST: u128 = 0x20_0000_0000_0000_0000_0000_0000_0000;

fn to_double(n: u128) -> (r: u128)
    requires
        n <= MOST,
    ensures
        r == as_double(n as int),
        r <= 2 * MOST,
        n <= 0xffff_ffff_ffff_ffff ==> r <= 0x1_0000_0000_0000_0000,
{
    let mut t: u128 = n;
    let mut unit: u128 = 1;
    let ghost mut e: nat = 0;
    proof {
        assert(pow2(0) == 1) by {
            vstd::arithmetic::power2::lemma2_to64();
        }
        assert(n as int / 1 == n);
    }
    while t >= LIMIT as u128
        invariant
            n <= MOST,
            unit == pow2(e),
            unit >= 1,
            t == n as int / unit as int,
            excess(n as int) == e + excess(t as int),
        decreases t,
    {
        proof {
            lemma_pow2_unfold(e + 1);
            lemma_div_denominator(n as int, unit as int, 2);
            lemma_fundamental_div_mod(n as int, unit as int);
            assert(unit * LIMIT <= n) by (nonlinear_arith)
                requires
                    LIMIT <= t,
                    n == unit * t + n as int % unit as int,
                    0 <= n as int % unit as int,
                    unit >= 1,
            ;
            assert(unit <= MOST) by (nonlinear_arith)
                requires
                    unit * LIMIT <= n,
                    n <= MOST,
                    unit >= 1,
            ;
            e = e + 1;
        }
        t = t / 2;
        unit = unit * 2;
    }
    let q: u128 = n / unit;
    let rest: u128 = n % unit;
    proof {
        assert(e == excess(n as int));
        lemma_excess(n as int);
        lemma_fundamental_div_mod(n as int, unit as int);
        assert(q * unit <= n) by (nonlinear_arith)
            requires
                n == unit * q + rest,
                0 <= rest,
        ;
        assert((q + 1) * unit <= 2 * n || n < LIMIT) by (nonlinear_arith)
            requires
                q * unit <= n,
                n < LIMIT || q >= 1,
                unit >= 1,
        ;
        if n < LIMIT {
            lemma_small(n as int);
            assert(unit == 1) by {
                vstd::arithmetic::power2::lemma2_to64();
            }
            lemma_fundamental_div_mod_converse(n as int, 1, n as int, 0);
        }
        if n <= 0xffff_ffff_ffff_ffff {
            lemma_as_double_in_order(n as int, 0x1_0000_0000_0000_0000);
            assert(pow2(64) == 0x1_0000_0000_0000_0000) by {
                vstd::arithmetic::power2::lemma2_to64();
            }
            lemma_as_double_scaled(1, 64);
            lemma_small(1);
        }
        assert((q + 1) * unit == q * unit + unit) by (nonlinear_arith);
    }
    let up: bool = rest > unit - rest || (rest == unit - rest && q % 2 == 1);
    if up {
        (q + 1) * unit
    } else {
        q * unit
    }
}

/// So much of a whole as a part is of another.
pub fn share_of(part: u64, of: u64, whole: u64) -> (r: u128)
    ensures
        r == share(part as int, of as int, whole as int),
        r <= 0x1_0000_0000_0000_0000,
        whole < LIMIT ==> r <= whole,
{
    proof {
        a_larger_part_is_no_smaller_share(part as int, part as int, of as int, whole as int);
        if whole < LIMIT {
            lemma_small(whole as int);
        }
    }
    let n: u128 = to_double(part as u128);
    let d: u128 = to_double(of as u128);
    let w: u128 = to_double(whole as u128);
    if n == 0 {
        return 0;
    }
    if n >= d {
        return w;
    }
    let goal: u128 = d * HALF_LIMIT as u128;
    let mut x: u128 = n;
    let mut unit: u128 = 1;
    let ghost mut k: nat = 0;
    proof {
        assert(pow2(0) == 1) by {
            vstd::arithmetic::power2::lemma2_to64();
        }
        lemma_quotient(n as int, d as int);
    }
    while x < goal
        invariant
            0 < n < d <= 0x1_0000_0000_0000_0000,
            goal == d * HALF_LIMIT,
            unit == pow2(k),
            x == n * unit,
            x < 2 * goal,
            scale(n as int, d as int) == k + scale(x as int, d as int),
            1 <= unit <= x,
        decreases 2 * goal - x,
    {
        proof {
            lemma_pow2_unfold(k + 1);
            assert(n * (unit * 2) == x * 2) by (nonlinear_arith)
                requires
                    x == n * unit,
            ;
            k = k + 1;
        }
        x = x * 2;
        unit = unit * 2;
    }
    assert(k == scale(n as int, d as int));
    let q: u128 = x / d;
    let rest: u128 = x % d;
    let m: u128 = if rest > d - rest || (rest == d - rest && q % 2 == 1) {
        q + 1
    } else {
        q
    };
    assert(m == nearest(x as int, d as int));
    assert(m * w <= MOST) by (nonlinear_arith)
        requires
            m <= LIMIT,
            w <= 0x1_0000_0000_0000_0000,
    ;
    let p: u128 = to_double(m * w);
    let whole_part: u128 = p / unit;
    let left: u128 = p % unit;
    if left >= unit - left {
        whole_part + 1
    } else {
        whole_part
    }
}

} // verus!
