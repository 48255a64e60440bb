//! Single-precision numbers carried by their bit pattern.
//!
//! Scores, thresholds, pixel ratios and audio samples are compared and handed
//! on by their bits; where one is computed, it is done in whole numbers.

use vstd::arithmetic::power2::pow2;
use vstd::prelude::*;

verus! {

/// An IEEE 754 single-precision number, by its bit pattern.
#[derive(Clone, Copy, Debug, PartialEq, Eq, Structural)]
pub struct Single {
    /// Sign bit, eight exponent bits, twenty-three fraction bits.
    pub bits: u32,
}

impl Single {
    /// The bits below the sign.
    pub open spec fn magnitude(self) -> int {
        if self.bits >= 0x8000_0000 {
            self.bits - 0x8000_0000
        } else {
            self.bits as int
        }
    }

    /// Whether the number is none: all exponent bits set and a fraction.
    pub open spec fn is_nan_spec(self) -> bool {
        self.magnitude() > 0x7f80_0000
    }

    /// A position on the number line that orders every number but the
    /// not-a-number patterns; both zeros share one position.
    pub open spec fn position(self) -> int {
        if self.bits >= 0x8000_0000 {
            -self.magnitude()
        } else {
            self.magnitude()
        }
    }

    /// Whether `self < other` holds. It never does of a not-a-number.
    pub open spec fn less(self, other: Single) -> bool {
        &&& !self.is_nan_spec()
        &&& !other.is_nan_spec()
        &&& self.position() < other.position()
    }

    /// The exponent bits.
    pub open spec fn exponent(self) -> int {
        self.magnitude() / 0x80_0000
    }

    /// The fraction bits.
    pub open spec fn fraction(self) -> int {
        self.magnitude() % 0x80_0000
    }

    /// The exact value of a finite number, in units of two to the power of
    /// minus 149, of which every finite number is a multiple.
    pub open spec fn units(self) -> int {
        let size = if self.exponent() == 0 {
            self.fraction()
        } else {
            (0x80_0000 + self.fraction()) * pow2((self.exponent() - 1) as nat)
        };
        if self.bits >= 0x8000_0000 {
            -size
        } else {
            size
        }
    }

    /// Whether the number is a not-a-number pattern.
    pub fn is_nan(self) -> (r: bool)
        ensures
            r == self.is_nan_spec(),
    {
        if self.bits >= 0x8000_0000 {
            self.bits - 0x8000_0000 > 0x7f80_0000
        } else {
            self.bits > 0x7f80_0000
        }
    }

    /// Whether `self < other`.
    pub fn less_than(self, other: Single) -> (r: bool)
        ensures
            r == self.less(other),
    {
        if self.is_nan() || other.is_nan() {
            return false;
        }
        let a: i64 = if self.bits >= 0x8000_0000 {
            -((self.bits - 0x8000_0000) as i64)
        } else {
            self.bits as i64
        };
        let b: i64 = if other.bits >= 0x8000_0000 {
            -((other.bits - 0x8000_0000) as i64)
        } else {
            other.bits as i64
        };
        a < b
    }
}

/// Among numbers without a sign, more bits mean a greater value.
pub proof fn value_grows_with_bits(x: Single, y: Single)
    requires
        x.bits < y.bits < 0x8000_0000,
    ensures
        0 <= x.units() < y.units(),
{
    let (ex, ey) = (x.exponent(), y.exponent());
    let (fx, fy) = (x.fraction(), y.fraction());
    assert(x.bits == ex * 0x80_0000 + fx && y.bits == ey * 0x80_0000 + fy);
    if ey == 0 {
        assert(ex == 0);
    } else {
        let top = pow2((ey - 1) as nat);
        vstd::arithmetic::power2::lemma_pow2_pos((ey - 1) as nat);
        assert(0x80_0000 * top <= (0x80_0000 + fy) * top) by (nonlinear_arith)
            requires
                0 <= fy,
                1 <= top,
        ;
        if ex == 0 {
            assert(0x80_0000 * 1 <= 0x80_0000 * top);
        } else {
            let low = pow2((ex - 1) as nat);
            vstd::arithmetic::power2::lemma_pow2_pos((ex - 1) as nat);
            if ex == ey {
                assert(0 <= (0x80_0000 + fx) * low < (0x80_0000 + fy) * low) by (nonlinear_arith)
                    requires
                        0 <= fx < fy,
                        1 <= low,
                ;
            } else {
                vstd::arithmetic::power2::lemma_pow2_unfold(ex as nat);
                if ex < ey - 1 {
                    vstd::arithmetic::power2::lemma_pow2_strictly_increases(
                        ex as nat,
                        (ey - 1) as nat,
                    );
                }
                assert(0 <= (0x80_0000 + fx) * low < 0x80_0000 * top) by (nonlinear_arith)
                    requires
                        0 <= fx < 0x80_0000,
                        1 <= low,
                        2 * low <= top,
                ;
            }
        }
    }
}

/// The value and the sign of a number determine its bits.
pub proof fn value_determines_bits(x: Single, y: Single)
    requires
        x.units() == y.units(),
        (x.bits >= 0x8000_0000) == (y.bits >= 0x8000_0000),
    ensures
        x == y,
{
    let (a, b) = (
        Single { bits: x.magnitude() as u32 },
        Single { bits: y.magnitude() as u32 },
    );
    if a.bits < b.bits {
        value_grows_with_bits(a, b);
    } else if b.bits < a.bits {
        value_grows_with_bits(b, a);
    }
}

/// Numbers are ordered by their values; infinity stands above every finite
/// value.
pub proof fn order_is_that_of_values(x: Single, y: Single)
    requires
        !x.is_nan_spec(),
        !y.is_nan_spec(),
    ensures
        x.less(y) <==> x.units() < y.units(),
{
    let zero = Single { bits: 0 };
    let (a, b) = (
        Single { bits: x.magnitude() as u32 },
        Single { bits: y.magnitude() as u32 },
    );
    if a.bits < b.bits {
        value_grows_with_bits(a, b);
    } else if b.bits < a.bits {
        value_grows_with_bits(b, a);
    }
    if a.bits > 0 {
        value_grows_with_bits(zero, a);
    }
    if b.bits > 0 {
        value_grows_with_bits(zero, b);
    }
}

/// A pattern that is no number is neither less nor greater than anything.
pub proof fn no_number_compares_with_nothing(x: Single, y: Single)
    requires
        x.exponent() == 255,
        x.fraction() != 0,
    ensures
        x.is_nan_spec(),
        !x.less(y),
        !y.less(x),
{
}

} // verus!
