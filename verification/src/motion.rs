//! Readings of the motion gate.

use vstd::arithmetic::power2::pow2;
use vstd::prelude::*;

use crate::rounding::single_ratio;
use crate::single::Single;

verus! {

/// One reading of the motion gate, whose only job is to tell whether the
/// picture as a whole has changed; what moved is for the detector to say.
#[derive(Clone, Copy, Debug)]
pub struct MotionReading {
    /// Fraction of pixels that the background model marked as changed.
    pub changed_ratio: Single,
    /// Whether the fraction exceeded the motion gate's threshold.
    pub tripped: bool,
}

impl MotionReading {
    /// A reading of a gate with the given threshold. A fraction equal to the
    /// threshold does not trip it, nor does one that is no number.
    pub fn new(changed_ratio: Single, threshold: Single) -> (r: MotionReading)
        ensures
            r.changed_ratio == changed_ratio,
            r.tripped == threshold.less(changed_ratio),
    {
        MotionReading { changed_ratio, tripped: threshold.less_than(changed_ratio) }
    }
}

/// Fraction of `total_pixels` that are marked as changed, in single precision.
/// A picture without pixels has not changed.
pub fn changed_ratio(changed: u32, total_pixels: u32) -> (r: Single)
    requires
        changed <= total_pixels,
    ensures
        total_pixels == 0 ==> r.bits == 0,
        total_pixels > 0 ==> crate::rounding::is_quotient(r, changed as int, total_pixels as int),
{
    if total_pixels == 0 {
        return Single { bits: 0 };
    }
    single_ratio(changed, total_pixels)
}

/// The changed fraction is the number of changed pixels over all of them, from
/// zero to one, off by no more than single precision is.
pub proof fn changed_fraction_is_true(fraction: Single, changed: u32, total_pixels: u32)
    requires
        changed <= total_pixels < 0x100_0000,
        total_pixels > 0,
        crate::rounding::is_quotient(fraction, changed as int, total_pixels as int),
    ensures
        fraction.bits <= 0x3f80_0000,
        changed == 0 ==> fraction.bits == 0,
        changed == total_pixels ==> fraction.bits == 0x3f80_0000,
        -(changed * pow2(149)) <= 0x100_0000 * (fraction.units() * total_pixels - changed * pow2(
            149,
        )) <= changed * pow2(149),
{
    crate::rounding::quotient_is_a_fraction(fraction, changed, total_pixels);
    crate::rounding::quotient_is_near(fraction, changed, total_pixels);
    if changed == total_pixels {
        crate::rounding::whole_is_one(fraction, changed);
    }
}

} // verus!
