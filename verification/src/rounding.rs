//! Single-precision rounding, in whole numbers.
//!
//! The result of a single-precision operation is the number of 24 significant
//! bits that is nearest to the exact result; of two equally near, the one
//! whose last bit is zero.

use vstd::arithmetic::power2::pow2;
use vstd::prelude::*;

use crate::single::Single;

verus! {

/// The whole number nearest to `p` / `q`; of two equally near, the even one.
pub open spec fn nearest(p: int, q: int) -> int {
    let whole = p / q;
    let rest = p % q;
    if 2 * rest > q || (2 * rest == q && whole % 2 != 0) {
        whole + 1
    } else {
        whole
    }
}

/// The smallest of `unit`, twice `unit`, and so on, at which a number takes no
/// more than 24 bits.
pub open spec fn precision_unit(n: int, unit: int) -> int
    decreases n - unit,
{
    if unit < 1 || n < 0x100_0000 * unit {
        unit
    } else {
        precision_unit(n, 2 * unit)
    }
}

/// The single-precision number nearest to a whole number.
pub open spec fn single_of(n: int) -> int {
    let unit = precision_unit(n, 1);
    nearest(n, unit) * unit
}

/// The smallest power of two by which `p` has to be multiplied for `p` / `q` to
/// take 24 bits before the point.
pub open spec fn ratio_unit(p: int, q: int) -> int
    decreases
            (if p < 0x80_0000 * q {
                0x80_0000 * q - p
            } else {
                0
            }),
{
    if p < 1 || p >= 0x80_0000 * q {
        1
    } else {
        2 * ratio_unit(2 * p, q)
    }
}

/// `p` / `q` in single precision, as a number of fractions of [`ratio_unit`].
pub open spec fn ratio(p: int, q: int) -> int {
    nearest(p * ratio_unit(p, q), q)
}

/// Whether a number is `p` / `q` in single precision, both being taken in
/// single precision first. A ratio of zero is zero without a sign.
pub open spec fn is_quotient(value: Single, p: int, q: int) -> bool {
    if p == 0 {
        value.bits == 0
    } else {
        let (a, b) = (single_of(p), single_of(q));
        &&& value.bits < 0x8000_0000
        &&& value.units() * ratio_unit(a, b) == ratio(a, b) * pow2(149)
    }
}

/// The nearest whole number is within a half.
pub proof fn nearest_is_near(p: int, q: int)
    requires
        0 <= p,
        0 < q,
    ensures
        -q <= 2 * (nearest(p, q) * q) - 2 * p <= q,
        0 <= nearest(p, q),
{
    let whole = p / q;
    let rest = p % q;
    vstd::arithmetic::div_mod::lemma_fundamental_div_mod(p, q);
    assert(q * whole == whole * q) by (nonlinear_arith);
    assert((whole + 1) * q == whole * q + q) by (nonlinear_arith);
    assert(0 <= rest < q) by (nonlinear_arith)
        requires
            rest == p % q,
            0 < q,
    ;
    assert(0 <= whole) by (nonlinear_arith)
        requires
            whole == p / q,
            0 <= p,
            0 < q,
    ;
}

/// The unit is positive, makes a number fit, and is no larger than it has to
/// be.
proof fn precision_unit_fits(n: int, unit: int)
    requires
        0 <= n,
        1 <= unit,
        unit == 1 || 0x80_0000 * unit <= n,
    ensures
        unit <= precision_unit(n, unit),
        n < 0x100_0000 * precision_unit(n, unit),
        precision_unit(n, unit) == 1 || 0x80_0000 * precision_unit(n, unit) <= n,
    decreases n - unit,
{
    if n >= 0x100_0000 * unit {
        precision_unit_fits(n, 2 * unit);
    }
}

/// Single precision is off by no more than one part in two to the power of 24.
pub proof fn single_is_near(n: int)
    requires
        0 <= n,
    ensures
        -n <= 0x100_0000 * (single_of(n) - n) <= n,
        0 <= single_of(n),
{
    let unit = precision_unit(n, 1);
    precision_unit_fits(n, 1);
    nearest_is_near(n, unit);
    assert(0 <= nearest(n, unit) * unit) by (nonlinear_arith)
        requires
            0 <= nearest(n, unit),
            1 <= unit,
    ;
    if unit == 1 {
        assert(n / 1 == n && n % 1 == 0) by (nonlinear_arith);
        assert(nearest(n, 1) == n);
    }
}

/// Rounding to whole numbers keeps the order.
proof fn nearest_keeps_order(m: int, n: int, q: int)
    requires
        m <= n,
        0 < q,
    ensures
        nearest(m, q) <= nearest(n, q),
{
    vstd::arithmetic::div_mod::lemma_fundamental_div_mod(m, q);
    vstd::arithmetic::div_mod::lemma_fundamental_div_mod(n, q);
    vstd::arithmetic::div_mod::lemma_div_is_ordered(m, n, q);
    let (low, high) = (m / q, n / q);
    if low == high {
        assert(m % q <= n % q);
    }
}

/// A greater number has the same unit, or one of at least twice the size.
proof fn precision_unit_keeps_order(m: int, n: int, unit: int)
    requires
        0 <= m <= n,
        1 <= unit,
        unit == 1 || 0x80_0000 * unit <= m,
    ensures
        precision_unit(m, unit) == precision_unit(n, unit) || 2 * precision_unit(m, unit)
            <= precision_unit(n, unit),
    decreases n - unit,
{
    if m >= 0x100_0000 * unit {
        precision_unit_keeps_order(m, n, 2 * unit);
    } else if n >= 0x100_0000 * unit {
        precision_unit_fits(n, 2 * unit);
    }
}

/// Single precision keeps the order of whole numbers.
pub proof fn single_keeps_order(m: int, n: int)
    requires
        0 <= m <= n,
    ensures
        single_of(m) <= single_of(n),
{
    let (low, high) = (precision_unit(m, 1), precision_unit(n, 1));
    precision_unit_fits(m, 1);
    precision_unit_fits(n, 1);
    precision_unit_keeps_order(m, n, 1);
    let (a, b) = (nearest(m, low), nearest(n, high));
    if low == high {
        nearest_keeps_order(m, n, low);
        assert(a * low <= b * low) by (nonlinear_arith)
            requires
                a <= b,
                1 <= low,
        ;
    } else {
        nearest_is_near(m, low);
        nearest_is_near(n, high);
        assert(a <= 0x100_0000) by (nonlinear_arith)
            requires
                2 * (a * low) - 2 * m <= low,
                m < 0x100_0000 * low,
                1 <= low,
        ;
        assert(0x80_0000 <= b) by (nonlinear_arith)
            requires
                -high <= 2 * (b * high) - 2 * n,
                0x80_0000 * high <= n,
                1 <= high,
        ;
        assert(a * low <= b * high) by (nonlinear_arith)
            requires
                a <= 0x100_0000,
                0x80_0000 <= b,
                2 * low <= high,
                1 <= low,
        ;
    }
}

/// A whole number of 24 bits is itself in single precision.
pub proof fn small_numbers_are_exact(n: int)
    requires
        0 <= n < 0x100_0000,
    ensures
        single_of(n) == n,
{
    assert(precision_unit(n, 1) == 1);
    assert(n / 1 == n && n % 1 == 0) by (nonlinear_arith);
}

/// The unit of a ratio gives it its 24 bits.
pub proof fn ratio_unit_fits(p: int, q: int)
    requires
        1 <= p < 0x100_0000 * q,
    ensures
        1 <= ratio_unit(p, q),
        0x80_0000 * q <= p * ratio_unit(p, q) < 0x100_0000 * q,
    decreases
            (if p < 0x80_0000 * q {
                0x80_0000 * q - p
            } else {
                0
            }),
{
    if p < 0x80_0000 * q {
        ratio_unit_fits(2 * p, q);
        let half = ratio_unit(2 * p, q);
        assert((2 * p) * half == p * (2 * half)) by (nonlinear_arith);
    } else {
        assert(p * 1 == p);
    }
}

/// A ratio in single precision takes 24 bits, or is the next power of two.
pub proof fn ratio_bits(p: int, q: int)
    requires
        1 <= p < 0x100_0000 * q,
    ensures
        0x80_0000 <= ratio(p, q) <= 0x100_0000,
{
    ratio_unit_fits(p, q);
    let n = p * ratio_unit(p, q);
    nearest_is_near(n, q);
    let m = nearest(n, q);
    assert(0x80_0000 <= m <= 0x100_0000) by (nonlinear_arith)
        requires
            -q <= 2 * (m * q) - 2 * n <= q,
            0x80_0000 * q <= n < 0x100_0000 * q,
            1 <= q,
    ;
}

/// A ratio in single precision is one number.
pub proof fn quotient_is_unique(x: Single, y: Single, p: u32, q: u32)
    requires
        p <= q,
        is_quotient(x, p as int, q as int),
        is_quotient(y, p as int, q as int),
    ensures
        x == y,
{
    if p > 0 {
        let (a, b) = (single_of(p as int), single_of(q as int));
        single_keeps_small(p);
        single_keeps_small(q);
        single_is_near(p as int);
        single_is_near(q as int);
        ratio_unit_fits(a, b);
        let unit = ratio_unit(a, b);
        assert(x.units() == y.units()) by (nonlinear_arith)
            requires
                x.units() * unit == y.units() * unit,
                1 <= unit,
        ;
        crate::single::value_determines_bits(x, y);
    }
}

/// A part of a whole is a number from zero to one.
pub proof fn quotient_is_a_fraction(value: Single, p: u32, q: u32)
    requires
        p <= q,
        q > 0,
        is_quotient(value, p as int, q as int),
    ensures
        0 <= value.units() <= pow2(149),
        value.bits <= 0x3f80_0000,
{
    let one = Single { bits: 0x3f80_0000 };
    vstd::arithmetic::power2::lemma_pow2_adds(126, 23);
    vstd::arithmetic::power2::lemma2_to64();
    assert(one.exponent() == 127 && one.fraction() == 0);
    assert(one.units() == pow2(149));
    if p > 0 {
        let (a, b) = (single_of(p as int), single_of(q as int));
        single_keeps_small(p);
        single_keeps_small(q);
        single_keeps_order(p as int, q as int);
        ratio_unit_fits(a, b);
        let unit = ratio_unit(a, b);
        let n = a * unit;
        vstd::arithmetic::div_mod::lemma_fundamental_div_mod(n, b);
        vstd::arithmetic::div_mod::lemma_mod_bound(n, b);
        let (whole, rest) = (n / b, n % b);
        assert(ratio(a, b) <= unit) by (nonlinear_arith)
            requires
                n == a * unit,
                a <= b,
                1 <= b,
                1 <= unit,
                n == b * whole + rest,
                0 <= rest < b,
                ratio(a, b) <= whole + 1,
                rest == 0 ==> ratio(a, b) == whole,
        ;
        assert(value.units() <= pow2(149)) by (nonlinear_arith)
            requires
                value.units() * unit == ratio(a, b) * pow2(149),
                ratio(a, b) <= unit,
                1 <= unit,
                0 <= pow2(149),
        ;
    } else {
        assert(value.exponent() == 0 && value.fraction() == 0);
    }
    if value.bits > one.bits {
        crate::single::value_grows_with_bits(one, value);
    }
    if value.bits > 0 {
        crate::single::value_grows_with_bits(Single { bits: 0 }, value);
    }
}

/// In single precision a 32-bit number grows by little and does not vanish.
pub proof fn single_keeps_small(n: u32)
    ensures
        0 <= single_of(n as int) <= 0x1_0000_0100,
        n >= 1 ==> single_of(n as int) >= 1,
{
    single_is_near(n as int);
}

/// The whole number nearest to `p` / `q`, the even one of two equally near.
pub fn nearest_to(p: u64, q: u64) -> (r: u64)
    requires
        0 < q <= 0x1_0000_0000_0000,
    ensures
        r == nearest(p as int, q as int),
{
    let whole: u64 = p / q;
    let rest: u64 = p % q;
    if 2 * rest > q || (2 * rest == q && whole % 2 != 0) {
        assert(whole < u64::MAX) by (nonlinear_arith)
            requires
                whole == p / q,
                2 * (p % q) >= q,
                q > 0,
                p <= u64::MAX,
        ;
        whole + 1
    } else {
        whole
    }
}

/// The single-precision number nearest to `n`.
pub fn to_single(n: u64) -> (r: u64)
    requires
        n <= 0x200_0000_0000_0000,
    ensures
        r == single_of(n as int),
        r <= 0x400_0000_0000_0000,
{
    let mut unit: u64 = 1;
    while n >= 0x100_0000 * unit
        invariant
            n <= 0x200_0000_0000_0000,
            1 <= unit <= 0x4_0000_0000,
            unit == 1 || 0x80_0000 * unit <= n,
            precision_unit(n as int, unit as int) == precision_unit(n as int, 1),
        decreases 0x4_0000_0000 - unit,
    {
        unit = 2 * unit;
    }
    let count: u64 = nearest_to(n, unit);
    proof {
        single_is_near(n as int);
        assert(count * unit == single_of(n as int));
    }
    count * unit
}

/// The power of two of [`ratio_unit`] and its exponent.
pub fn find_ratio_unit(p: u64, q: u64) -> (r: (u64, u32))
    requires
        1 <= p < 0x100_0000 * q,
        q <= 0x1_0000_0100,
    ensures
        r.0 == ratio_unit(p as int, q as int),
        r.0 == pow2(r.1 as nat),
        r.1 <= 56,
        p * r.0 < 0x100_0000 * q,
{
    let mut n: u64 = p;
    let mut unit: u64 = 1;
    let mut power: u32 = 0;
    proof {
        vstd::arithmetic::power2::lemma2_to64();
        assert(p * 1 == p);
    }
    while n < 0x80_0000 * q
        invariant
            1 <= p,
            q <= 0x1_0000_0100,
            1 <= n < 0x100_0000 * q,
            1 <= unit <= n,
            n == p * unit,
            unit == pow2(power as nat),
            power <= 56,
            unit * ratio_unit(n as int, q as int) == ratio_unit(p as int, q as int),
        decreases 0x100_0000 * q - n,
    {
        proof {
            let rest = ratio_unit(2 * n, q as int);
            assert(unit * (2 * rest) == (2 * unit) * rest) by (nonlinear_arith);
            assert(2 * (p * unit) == p * (2 * unit)) by (nonlinear_arith);
            vstd::arithmetic::power2::lemma_pow2_unfold((power + 1) as nat);
            if power >= 56 {
                vstd::arithmetic::power2::lemma2_to64_rest();
            }
        }
        n = 2 * n;
        unit = 2 * unit;
        power = power + 1;
    }
    assert(unit * 1 == unit);
    (unit, power)
}

/// `p` / `q` in single precision.
pub fn single_ratio(p: u32, q: u32) -> (r: Single)
    requires
        p <= q,
        q > 0,
    ensures
        is_quotient(r, p as int, q as int),
{
    if p == 0 {
        return Single { bits: 0 };
    }
    proof {
        single_keeps_small(p);
        single_keeps_small(q);
        single_is_near(p as int);
        single_is_near(q as int);
    }
    let a: u64 = to_single(p as u64);
    let b: u64 = to_single(q as u64);
    let (unit, power): (u64, u32) = find_ratio_unit(a, b);
    let m: u64 = nearest_to(a * unit, b);
    proof {
        ratio_bits(a as int, b as int);
        vstd::arithmetic::power2::lemma_pow2_adds((149 - power) as nat, power as nat);
        vstd::arithmetic::power2::lemma_pow2_unfold((150 - power) as nat);
        let low = pow2((149 - power) as nat);
        assert((m * low) * unit == m * (low * unit)) by (nonlinear_arith);
    }
    let exponent: u32 = 150 - power;
    if m == 0x100_0000 {
        let r: Single = Single { bits: (exponent + 1) * 0x80_0000 };
        assert(r.exponent() == exponent + 1 && r.fraction() == 0);
        r
    } else {
        let r: Single = Single { bits: exponent * 0x80_0000 + (m as u32 - 0x80_0000) };
        assert(r.exponent() == exponent && r.fraction() == m - 0x80_0000);
        r
    }
}

/// Of two whole numbers equally near, the even one is taken.
pub proof fn nearest_prefers_even(p: int, q: int)
    requires
        0 <= p,
        0 < q,
    ensures
        2 * (nearest(p, q) * q) - 2 * p == q || 2 * (nearest(p, q) * q) - 2 * p == -q ==> nearest(
            p,
            q,
        ) % 2 == 0,
{
    let whole = p / q;
    let rest = p % q;
    vstd::arithmetic::div_mod::lemma_fundamental_div_mod(p, q);
    vstd::arithmetic::div_mod::lemma_mod_bound(p, q);
    assert(q * whole == whole * q) by (nonlinear_arith);
    assert((whole + 1) * q == whole * q + q) by (nonlinear_arith);
}

/// The unit of a number is a power of two.
proof fn precision_unit_is_binary(n: int, power: nat) -> (k: nat)
    requires
        0 <= n,
    ensures
        precision_unit(n, pow2(power) as int) == pow2(k),
    decreases n - pow2(power),
{
    vstd::arithmetic::power2::lemma_pow2_pos(power);
    if n < 0x100_0000 * pow2(power) {
        power
    } else {
        vstd::arithmetic::power2::lemma_pow2_unfold((power + 1) as nat);
        precision_unit_is_binary(n, power + 1)
    }
}

/// A number in single precision takes 24 bits and a power of two, or is the
/// next power of two.
pub proof fn single_takes_24_bits(n: int)
    requires
        0 <= n,
    ensures
        exists|m: int, k: nat|
            0 <= m <= 0x100_0000 && single_of(n) == #[trigger] (m * pow2(k)),
{
    vstd::arithmetic::power2::lemma2_to64();
    let k = precision_unit_is_binary(n, 0);
    let unit = precision_unit(n, 1);
    assert(unit == pow2(k));
    precision_unit_fits(n, 1);
    nearest_is_near(n, unit);
    let m = nearest(n, unit);
    assert(m <= 0x100_0000) by (nonlinear_arith)
        requires
            2 * (m * unit) - 2 * n <= unit,
            n < 0x100_0000 * unit,
            1 <= unit,
    ;
    assert(single_of(n) == m * pow2(k));
}

/// A quotient of numbers that single precision holds is off by no more than
/// one part in two to the power of 24.
pub proof fn quotient_is_near(value: Single, p: u32, q: u32)
    requires
        p <= q < 0x100_0000,
        q > 0,
        is_quotient(value, p as int, q as int),
    ensures
        -(p * pow2(149)) <= 0x100_0000 * (value.units() * q - p * pow2(149)) <= p * pow2(149),
{
    if p == 0 {
        assert(value.exponent() == 0 && value.fraction() == 0);
        assert(0 * pow2(149) == 0 && 0 * q == 0);
    } else {
        small_numbers_are_exact(p as int);
        small_numbers_are_exact(q as int);
        let unit = ratio_unit(p as int, q as int);
        let m = ratio(p as int, q as int);
        let one = pow2(149) as int;
        let units = value.units();
        vstd::arithmetic::power2::lemma_pow2_pos(149);
        ratio_unit_fits(p as int, q as int);
        assert(0 <= p * unit) by (nonlinear_arith)
            requires
                0 <= p,
                1 <= unit,
        ;
        nearest_is_near(p * unit, q as int);
        let off = units * q - p * one;
        assert(2 * (off * unit) == (2 * (m * q) - 2 * (p * unit)) * one) by (nonlinear_arith)
            requires
                off == units * q - p * one,
                units * unit == m * one,
        ;
        assert(-(q * one) <= 2 * (off * unit) <= q * one) by (nonlinear_arith)
            requires
                2 * (off * unit) == (2 * (m * q) - 2 * (p * unit)) * one,
                -q <= 2 * (m * q) - 2 * (p * unit) <= q,
                1 <= one,
        ;
        assert(0x80_0000 * (q * one) <= (p * one) * unit) by (nonlinear_arith)
            requires
                0x80_0000 * q <= p * unit,
                1 <= one,
        ;
        let part = p * one;
        assert(-part <= 0x100_0000 * off <= part) by (nonlinear_arith)
            requires
                -(q * one) <= 2 * (off * unit) <= q * one,
                0x80_0000 * (q * one) <= part * unit,
                1 <= unit,
        ;
    }
}

/// The whole of anything is one.
pub proof fn whole_is_one(value: Single, q: u32)
    requires
        0 < q < 0x100_0000,
        is_quotient(value, q as int, q as int),
    ensures
        value.bits == 0x3f80_0000,
{
    small_numbers_are_exact(q as int);
    let unit = ratio_unit(q as int, q as int);
    ratio_unit_fits(q as int, q as int);
    assert((q * unit) / (q as int) == unit && (q * unit) % (q as int) == 0) by {
        assert(q * unit == unit * q) by (nonlinear_arith);
        vstd::arithmetic::div_mod::lemma_fundamental_div_mod_converse(
            q * unit,
            q as int,
            unit,
            0,
        );
    }
    assert(ratio(q as int, q as int) == unit);
    assert(value.units() == pow2(149)) by (nonlinear_arith)
        requires
            value.units() * unit == unit * pow2(149),
            1 <= unit,
    ;
    let one = Single { bits: 0x3f80_0000 };
    vstd::arithmetic::power2::lemma_pow2_adds(126, 23);
    vstd::arithmetic::power2::lemma2_to64();
    assert(one.exponent() == 127 && one.fraction() == 0);
    crate::single::value_determines_bits(value, one);
}

/// No whole number is nearer than the nearest.
proof fn nothing_is_nearer(p: int, q: int, j: int)
    requires
        0 <= p,
        0 < q,
    ensures
        nearest(p, q) * q - p <= j * q - p || nearest(p, q) * q - p <= p - j * q,
        p - nearest(p, q) * q <= j * q - p || p - nearest(p, q) * q <= p - j * q,
{
    nearest_is_near(p, q);
    let m = nearest(p, q);
    if j >= m + 1 {
        assert(j * q >= m * q + q) by (nonlinear_arith)
            requires
                j >= m + 1,
                0 < q,
        ;
    } else if j <= m - 1 {
        assert(j * q <= m * q - q) by (nonlinear_arith)
            requires
                j <= m - 1,
                0 < q,
        ;
    } else {
        assert(j * q == m * q);
    }
}

/// Of all numbers of 24 bits and a power of two, the single-precision one is
/// the nearest: no other is closer.
pub proof fn single_is_the_nearest(n: int, m: int, k: nat)
    requires
        0 <= n,
        0 <= m < 0x100_0000,
    ensures
        single_of(n) - n <= m * pow2(k) - n || single_of(n) - n <= n - m * pow2(k),
        n - single_of(n) <= m * pow2(k) - n || n - single_of(n) <= n - m * pow2(k),
{
    vstd::arithmetic::power2::lemma2_to64();
    let power = precision_unit_is_binary(n, 0);
    let unit = precision_unit(n, 1);
    precision_unit_fits(n, 1);
    let other = m * pow2(k);
    vstd::arithmetic::power2::lemma_pow2_pos(k);
    if k >= power {
        vstd::arithmetic::power2::lemma_pow2_adds(power, (k - power) as nat);
        let j = m * pow2((k - power) as nat);
        assert(j * unit == other) by (nonlinear_arith)
            requires
                j == m * pow2((k - power) as nat),
                pow2(k) == unit * pow2((k - power) as nat),
                other == m * pow2(k),
        ;
        nothing_is_nearer(n, unit, j);
    } else {
        vstd::arithmetic::power2::lemma_pow2_adds(k, (power - k) as nat);
        vstd::arithmetic::power2::lemma_pow2_unfold((power - k) as nat);
        vstd::arithmetic::power2::lemma_pow2_pos((power - k - 1) as nat);
        assert(2 * pow2(k) <= unit) by (nonlinear_arith)
            requires
                unit == pow2(k) * pow2((power - k) as nat),
                pow2((power - k) as nat) >= 2,
                pow2(k) >= 1,
        ;
        assert(other <= 0x80_0000 * unit) by (nonlinear_arith)
            requires
                other == m * pow2(k),
                0 <= m < 0x100_0000,
                2 * pow2(k) <= unit,
                pow2(k) >= 1,
        ;
        assert(unit != 1);
        nothing_is_nearer(n, unit, 0x80_0000);
    }
}

} // verus!
