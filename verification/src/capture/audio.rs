//! Audio samples as the rest of the pipeline takes them.

use vstd::arithmetic::power2::pow2;
use vstd::prelude::*;

use crate::single::Single;

verus! {

/// Formats an audio device may report its samples in.
#[derive(Clone, Copy, Debug, PartialEq, Eq, Structural)]
pub enum SampleFormat {
    /// Signed 8-bit integers.
    I8,
    /// Signed 16-bit integers.
    I16,
    /// Signed 32-bit integers.
    I32,
    /// Signed 64-bit integers.
    I64,
    /// Unsigned 8-bit integers.
    U8,
    /// Unsigned 16-bit integers.
    U16,
    /// Unsigned 32-bit integers.
    U32,
    /// Unsigned 64-bit integers.
    U64,
    /// Single-precision numbers.
    F32,
    /// Double-precision numbers.
    F64,
    /// Any other format.
    Other,
}

/// Whether samples of a format can be taken: those of the formats that are
/// converted to single precision, or are in it. Checked before a stream is
/// built, so that another format fails with a clear error.
pub fn sample_format_supported(format: SampleFormat) -> (r: bool)
    ensures
        r == (format == SampleFormat::F32 || format == SampleFormat::I16 || format
            == SampleFormat::U16),
{
    matches!(format, SampleFormat::F32 | SampleFormat::I16 | SampleFormat::U16)
}

/// Sixteen-bit samples, around their middle.
pub trait PcmSample: Sized {
    /// The distance from silence, from -32768 to 32767.
    spec fn level(&self) -> int;

    /// The sample in single precision, full scale being one.
    fn to_single(&self) -> (r: Single)
        ensures
            r.units() * 32_768 == self.level() * pow2(149),
            (r.bits >= 0x8000_0000) == (self.level() < 0),
    ;
}

/// The number `level` / 32768, which single precision holds exactly.
fn fraction_of_full_scale(level: i32) -> (r: Single)
    requires
        -32_768 <= level <= 32_767,
    ensures
        r.units() * 32_768 == level * pow2(149),
        (r.bits >= 0x8000_0000) == (level < 0),
{
    if level == 0 {
        return Single { bits: 0 };
    }
    let negative: bool = level < 0;
    let size: u32 = if negative {
        (-level) as u32
    } else {
        level as u32
    };
    let mut mantissa: u32 = size;
    let mut exponent: u32 = 135;
    proof {
        vstd::arithmetic::power2::lemma2_to64();
        assert(size * pow2(23) >= pow2(23)) by (nonlinear_arith)
            requires
                size >= 1,
                pow2(23) >= 0,
        ;
    }
    while mantissa < 0x80_0000
        invariant
            0 < mantissa < 0x100_0000,
            112 <= exponent <= 135,
            mantissa * pow2((exponent - 1) as nat) == size * pow2(134),
            mantissa * pow2((exponent - 112) as nat) >= 0x80_0000,
        decreases 0x100_0000 - mantissa,
    {
        proof {
            vstd::arithmetic::power2::lemma2_to64();
            if exponent == 112 {
                assert(mantissa * pow2(0) == mantissa);
            }
            vstd::arithmetic::power2::lemma_pow2_unfold((exponent - 1) as nat);
            vstd::arithmetic::power2::lemma_pow2_unfold((exponent - 112) as nat);
            let half = pow2((exponent - 2) as nat);
            assert(mantissa * (2 * half) == (2 * mantissa) * half) by (nonlinear_arith);
            let rest = pow2((exponent - 113) as nat);
            assert(mantissa * (2 * rest) == (2 * mantissa) * rest) by (nonlinear_arith);
        }
        mantissa = mantissa * 2;
        exponent = exponent - 1;
    }
    let sign: u32 = if negative {
        0x8000_0000
    } else {
        0
    };
    let result: Single = Single { bits: sign + exponent * 0x80_0000 + (mantissa - 0x80_0000) };
    proof {
        assert(result.exponent() == exponent);
        assert(result.fraction() == mantissa - 0x80_0000);
        let whole = pow2(134);
        vstd::arithmetic::power2::lemma_pow2_adds(134, 15);
        vstd::arithmetic::power2::lemma2_to64();
        assert(pow2(149) == whole * 32_768);
        assert((size * whole) * 32_768 == size * (whole * 32_768)) by (nonlinear_arith);
        assert((-(size * whole)) * 32_768 == (-size) * (whole * 32_768)) by (nonlinear_arith);
    }
    result
}

impl PcmSample for i16 {
    open spec fn level(&self) -> int {
        *self as int
    }

    fn to_single(&self) -> Single {
        fraction_of_full_scale(*self as i32)
    }
}

impl PcmSample for u16 {
    open spec fn level(&self) -> int {
        *self - 32_768
    }

    fn to_single(&self) -> Single {
        fraction_of_full_scale(*self as i32 - 32_768)
    }
}

/// Converts samples to single precision, the format of the ring buffer and the
/// recorder.
pub fn samples_to_f32<S: PcmSample>(data: &[S]) -> (r: Vec<Single>)
    ensures
        r@.len() == data@.len(),
        forall|i: int|
            0 <= i < r@.len() ==> {
                &&& (#[trigger] r@[i]).units() * 32_768 == data@[i].level() * pow2(149)
                &&& (r@[i].bits >= 0x8000_0000) == (data@[i].level() < 0)
            },
{
    let mut out: Vec<Single> = Vec::new();
    let mut i: usize = 0;
    while i < data.len()
        invariant
            i <= data@.len(),
            out@.len() == i,
            forall|k: int|
                0 <= k < i ==> {
                    &&& (#[trigger] out@[k]).units() * 32_768 == data@[k].level() * pow2(149)
                    &&& (out@[k].bits >= 0x8000_0000) == (data@[k].level() < 0)
                },
        decreases data@.len() - i,
    {
        out.push(data[i].to_single());
        i = i + 1;
    }
    out
}

/// Levels go up by one from sample to sample, and silence is in the middle: at
/// zero for signed samples, at half of the range for unsigned ones.
pub proof fn silence_is_in_the_middle(signed: i16, unsigned: u16)
    ensures
        signed.level() - 0i16.level() == signed,
        unsigned.level() - 0u16.level() == unsigned,
        0i16.level() == 0,
        0x8000u16.level() == 0,
        -32_768 <= signed.level() <= 32_767,
        -32_768 <= unsigned.level() <= 32_767,
{
}

} // verus!
