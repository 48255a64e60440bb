//! Fitting a picture to the model's square input.
//!
//! The scale is computed in single precision: every result of an operation is
//! the single-precision number nearest to the exact one. All of it is done in
//! whole numbers here, so that the size comes out the same to the pixel.

use vstd::prelude::*;

use crate::detect::MODEL_INPUT_SIZE;
use crate::rounding::{find_ratio_unit, nearest_to, to_single};

verus! {

/// The model's input size divided by `longest`, in single precision, as a
/// number of the fractions that give it 24 bits.
pub open spec fn scale(longest: int) -> int {
    crate::rounding::ratio(640, longest)
}

/// A length scaled so that `longest` fills the model's input: their product in
/// single precision, rounded to whole pixels, a half up.
pub open spec fn fitted(length: int, longest: int) -> int {
    let unit = crate::rounding::ratio_unit(640, longest);
    (2 * crate::rounding::single_of(length * scale(longest)) + unit) / (2 * unit)
}

/// The longer side of a picture, in single precision.
pub open spec fn longest_side(width: u32, height: u32) -> int {
    if crate::rounding::single_of(width as int) >= crate::rounding::single_of(height as int) {
        crate::rounding::single_of(width as int)
    } else {
        crate::rounding::single_of(height as int)
    }
}

/// The size at which a picture fills the model's input.
pub open spec fn fitted_dims(width: u32, height: u32) -> (int, int) {
    if width == 0 && height == 0 {
        (0, 0)
    } else {
        let longest = longest_side(width, height);
        (
            fitted(crate::rounding::single_of(width as int), longest),
            fitted(crate::rounding::single_of(height as int), longest),
        )
    }
}

/// A fitted picture never exceeds the model's input.
pub proof fn fitted_picture_fits(length: int, longest: int)
    requires
        0 <= length <= longest,
        1 <= longest,
    ensures
        0 <= fitted(length, longest) <= 640,
{
    let unit = crate::rounding::ratio_unit(640, longest);
    crate::rounding::ratio_unit_fits(640, longest);
    let s = scale(longest);
    crate::rounding::nearest_is_near(640 * unit, longest);
    let n = length * s;
    assert(0 <= n <= s * longest) by (nonlinear_arith)
        requires
            n == length * s,
            0 <= length <= longest,
            0 <= s,
    ;
    crate::rounding::single_is_near(n);
    let top = 2 * crate::rounding::single_of(n) + unit;
    assert(0 <= top < 1282 * unit);
    assert(0 <= top / (2 * unit) <= 640) by (nonlinear_arith)
        requires
            0 <= top < 1282 * unit,
            1 <= unit,
    ;
}

/// The longer side of a picture fills the model's input exactly.
pub proof fn longest_side_fills_the_input(longest: int)
    requires
        1 <= longest,
    ensures
        fitted(longest, longest) == 640,
{
    fitted_picture_fits(longest, longest);
    let unit = crate::rounding::ratio_unit(640, longest);
    crate::rounding::ratio_unit_fits(640, longest);
    let s = scale(longest);
    crate::rounding::nearest_is_near(640 * unit, longest);
    let n = longest * s;
    assert(n == s * longest) by (nonlinear_arith)
        requires
            n == longest * s,
    ;
    assert(0 <= n) by (nonlinear_arith)
        requires
            n == longest * s,
            0 <= longest,
            0 <= s,
    ;
    crate::rounding::single_is_near(n);
    let top = 2 * crate::rounding::single_of(n) + unit;
    assert(1280 * unit <= top);
    assert(640 <= top / (2 * unit)) by (nonlinear_arith)
        requires
            1280 * unit <= top,
            1 <= unit,
    ;
}

/// The size at which a picture of `width` by `height` pixels, in its own
/// aspect ratio, fills the model's input. A picture without pixels stays so.
pub fn fitted_size(width: u32, height: u32) -> (r: (u32, u32))
    ensures
        (r.0 as int, r.1 as int) == fitted_dims(width, height),
        r.0 <= MODEL_INPUT_SIZE,
        r.1 <= MODEL_INPUT_SIZE,
{
    if width == 0 && height == 0 {
        return (0, 0);
    }
    proof {
        crate::rounding::single_keeps_small(width);
        crate::rounding::single_keeps_small(height);
    }
    let wide: u64 = to_single(width as u64);
    let high: u64 = to_single(height as u64);
    let longest: u64 = if wide >= high {
        wide
    } else {
        high
    };
    let (unit, _): (u64, u32) = find_ratio_unit(640, longest);
    let factor: u64 = nearest_to(640 * unit, longest);
    proof {
        crate::rounding::ratio_bits(640, longest as int);
        assert(wide * factor <= 0x200_0000_0000_0000 && high * factor <= 0x200_0000_0000_0000
            && 0 <= wide * factor && 0 <= high * factor) by (nonlinear_arith)
            requires
                0 <= wide <= 0x1_0000_0100,
                0 <= high <= 0x1_0000_0100,
                0 <= factor <= 0x100_0000,
        ;
        fitted_picture_fits(wide as int, longest as int);
        fitted_picture_fits(high as int, longest as int);
    }
    let new_width: u64 = (2 * to_single(wide * factor) + unit) / (2 * unit);
    let new_height: u64 = (2 * to_single(high * factor) + unit) / (2 * unit);
    (new_width as u32, new_height as u32)
}

/// A picture keeps its aspect ratio: each side is scaled by the same factor, to
/// the nearest pixel but for a thousandth of one.
pub proof fn aspect_ratio_is_kept(length: int, longest: int)
    requires
        0 <= length <= longest,
        1 <= longest,
    ensures
        -1001 * longest <= 2000 * (fitted(length, longest) * longest - 640 * length) <= 1001
            * longest,
{
    let unit = crate::rounding::ratio_unit(640, longest);
    crate::rounding::ratio_unit_fits(640, longest);
    crate::rounding::ratio_bits(640, longest);
    let s = scale(longest);
    crate::rounding::nearest_is_near(640 * unit, longest);
    let n = length * s;
    assert(0 <= n <= length * 0x100_0000) by (nonlinear_arith)
        requires
            n == length * s,
            0 <= length,
            0 <= s <= 0x100_0000,
    ;
    crate::rounding::single_is_near(n);
    let single = crate::rounding::single_of(n);
    let size = fitted(length, longest);
    let top = 2 * single + unit;
    vstd::arithmetic::div_mod::lemma_fundamental_div_mod(top, 2 * unit);
    vstd::arithmetic::div_mod::lemma_mod_bound(top, 2 * unit);
    assert((2 * unit) * size == 2 * (size * unit)) by (nonlinear_arith);
    assert(-unit < 2 * (size * unit) - 2 * single <= unit);
    assert(-length <= single - n <= length);
    // What is off, in parts of a unit, comes from three roundings.
    let off = size * longest - 640 * length;
    assert(2 * (off * unit) == (2 * (size * unit) - 2 * single) * longest + 2 * ((single - n)
        * longest) + length * (2 * (s * longest) - 2 * (640 * unit))) by (nonlinear_arith)
        requires
            off == size * longest - 640 * length,
            n == length * s,
    ;
    assert(-(unit * longest) <= (2 * (size * unit) - 2 * single) * longest <= unit * longest)
        by (nonlinear_arith)
        requires
            -unit < 2 * (size * unit) - 2 * single <= unit,
            1 <= longest,
    ;
    assert(-(length * longest) <= (single - n) * longest <= length * longest) by (nonlinear_arith)
        requires
            -length <= single - n <= length,
            1 <= longest,
    ;
    assert(-(length * longest) <= length * (2 * (s * longest) - 2 * (640 * unit)) <= length
        * longest) by (nonlinear_arith)
        requires
            -longest <= 2 * (s * longest) - 2 * (640 * unit) <= longest,
            0 <= length,
    ;
    assert(3 * (length * longest) <= 3 * (longest * longest)) by (nonlinear_arith)
        requires
            0 <= length <= longest,
    ;
    assert(3000 * (longest * longest) <= unit * longest) by (nonlinear_arith)
        requires
            0x80_0000 * longest <= 640 * unit,
            1 <= longest,
    ;
    assert(-1001 * longest <= 2000 * off <= 1001 * longest) by (nonlinear_arith)
        requires
            -1001 * (unit * longest) <= 2000 * (off * unit) <= 1001 * (unit * longest),
            1 <= unit,
    ;
}

/// The size of a picture whose sides single precision holds: the longer side
/// fills the model's input, the other one is in proportion, and neither is
/// larger than it; a picture without pixels has no size.
pub proof fn picture_is_scaled_as_a_whole(width: u32, height: u32)
    requires
        width < 0x100_0000,
        height < 0x100_0000,
    ensures
        ({
            let (w, h) = fitted_dims(width, height);
            &&& width == 0 && height == 0 ==> w == 0 && h == 0
            &&& 0 < width && height <= width ==> w == 640 && 0 <= h <= 640 && -1001 * width
                <= 2000 * (h * width - 640 * height) <= 1001 * width
            &&& 0 < height && width <= height ==> h == 640 && 0 <= w <= 640 && -1001 * height
                <= 2000 * (w * height - 640 * width) <= 1001 * height
        }),
{
    crate::rounding::small_numbers_are_exact(width as int);
    crate::rounding::small_numbers_are_exact(height as int);
    if 0 < width && height <= width {
        longest_side_fills_the_input(width as int);
        fitted_picture_fits(height as int, width as int);
        aspect_ratio_is_kept(height as int, width as int);
    }
    if 0 < height && width <= height {
        longest_side_fills_the_input(height as int);
        fitted_picture_fits(width as int, height as int);
        aspect_ratio_is_kept(width as int, height as int);
    }
}

/// A scaled length is rounded to the nearest pixel, and up from the middle.
pub proof fn scaled_length_is_rounded(length: int, longest: int)
    requires
        0 <= length <= longest,
        1 <= longest,
    ensures
        ({
            let unit = crate::rounding::ratio_unit(640, longest);
            let product = crate::rounding::single_of(length * scale(longest));
            -unit < 2 * (fitted(length, longest) * unit - product) <= unit
        }),
        -longest <= 2 * (scale(longest) * longest - 640 * crate::rounding::ratio_unit(640, longest))
            <= longest,
        0x80_0000 <= scale(longest) <= 0x100_0000,
{
    let unit = crate::rounding::ratio_unit(640, longest);
    crate::rounding::ratio_unit_fits(640, longest);
    crate::rounding::ratio_bits(640, longest);
    crate::rounding::nearest_is_near(640 * unit, longest);
    let product = crate::rounding::single_of(length * scale(longest));
    let size = fitted(length, longest);
    let top = 2 * product + unit;
    vstd::arithmetic::div_mod::lemma_fundamental_div_mod(top, 2 * unit);
    vstd::arithmetic::div_mod::lemma_mod_bound(top, 2 * unit);
    assert((2 * unit) * size == 2 * (size * unit)) by (nonlinear_arith);
}

} // verus!
