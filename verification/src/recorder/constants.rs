//! Constants of the recorder, and the sample types that it takes in.

use super::single_precision::single_bits;
use vstd::prelude::*;

verus! {

/// A sample in the format that the recorder hands out: the bit pattern of a single-precision
/// number.
pub type TargetFormat = u32;

/// Silence in the target format: the bit pattern of positive zero.
pub const EQUILIBRIUM: u32 = 0;

/// Milliseconds between two looks at the recording signal.
pub const CLOCK_DELAY: u32 = 400;

/// Milliseconds between two turns of the resampling loops.
pub const RESAMPLER_SLEEP_DELAY: u32 = 10;

/// The chunk size by which the resampling ring buffers are sized.
pub const RESAMPLER_CHUNK_SIZE: usize = 44100;

/// The capacity of every ring buffer of a resampling session: two chunks.
pub const RESAMPLER_BUFFER_SIZE: usize = 88200;

/// The input chunk that a resampler is asked to work in.
pub const RESAMPLER_INPUT_CHUNK: usize = 1024;

/// The sub-chunks that a resampler splits its chunk into.
pub const RESAMPLER_SUB_CHUNKS: usize = 2;

/// The channels of a resampler: it always works on one down-mixed channel.
pub const RESAMPLER_CHANNELS: usize = 1;

/// Which of the two streams are resampled.
#[derive(Debug, Clone, Copy, PartialEq, Eq, Structural)]
pub enum ResampleTargetStream {
    /// Resample the input stream to achieve the output rate
    Input,
    /// Resample the output stream to achieve the input rate
    Output,
    /// No resampling
    Neither,
    /// Resample both streams to a rate that neither of them has
    Both,
}

/// A sample type that a device may deliver and that converts to [`TargetFormat`].
pub trait CustomSample: Copy {
    /// What the sample is in the target format.
    spec fn target(self) -> TargetFormat;

    /// Converts the sample to the target format.
    fn to_target(self) -> (bits: TargetFormat)
        ensures
            bits == self.target(),
    ;
}

/// What a sequence of samples is in the target format.
pub open spec fn targets<T: CustomSample>(samples: Seq<T>) -> Seq<TargetFormat> {
    Seq::new(samples.len(), |i: int| samples[i].target())
}

/// A sample of a stream that is single precision already, by its bit pattern.
#[derive(Debug, Clone, Copy, PartialEq, Eq, Structural)]
pub struct Single {
    pub bits: u32,
}

/// `dasp_sample::conv::i8::to_f32`: the sample over 2 to the 7th.
#[verifier::external_body]
fn single_from_i8(sample: i8) -> (bits: u32)
    ensures
        bits == single_bits(sample as int, 7),
{
    dasp_sample::conv::i8::to_f32(sample).to_bits()
}

/// `dasp_sample::conv::i16::to_f32`: the sample over 2 to the 15th.
#[verifier::external_body]
fn single_from_i16(sample: i16) -> (bits: u32)
    ensures
        bits == single_bits(sample as int, 15),
{
    dasp_sample::conv::i16::to_f32(sample).to_bits()
}

/// `dasp_sample::conv::i32::to_f32`: the sample, rounded, over 2 to the 31st.
#[verifier::external_body]
fn single_from_i32(sample: i32) -> (bits: u32)
    ensures
        bits == single_bits(sample as int, 31),
{
    dasp_sample::conv::i32::to_f32(sample).to_bits()
}

/// `dasp_sample::conv::i64::to_f32`: the sample, rounded, over 2 to the 63rd.
#[verifier::external_body]
fn single_from_i64(sample: i64) -> (bits: u32)
    ensures
        bits == single_bits(sample as int, 63),
{
    dasp_sample::conv::i64::to_f32(sample).to_bits()
}

/// `dasp_sample::conv::u8::to_f32`: the distance from the middle of the range over 2 to the 7th.
#[verifier::external_body]
fn single_from_u8(sample: u8) -> (bits: u32)
    ensures
        bits == single_bits(sample - 0x80, 7),
{
    dasp_sample::conv::u8::to_f32(sample).to_bits()
}

/// `dasp_sample::conv::u16::to_f32`: the distance from the middle of the range over 2 to the
/// 15th.
#[verifier::external_body]
fn single_from_u16(sample: u16) -> (bits: u32)
    ensures
        bits == single_bits(sample - 0x8000, 15),
{
    dasp_sample::conv::u16::to_f32(sample).to_bits()
}

/// `dasp_sample::conv::u32::to_f32`: the distance from the middle of the range, rounded, over 2
/// to the 31st.
#[verifier::external_body]
fn single_from_u32(sample: u32) -> (bits: u32)
    ensures
        bits == single_bits(sample - 0x8000_0000, 31),
{
    dasp_sample::conv::u32::to_f32(sample).to_bits()
}

/// `dasp_sample::conv::u64::to_f32`: the distance from the middle of the range, rounded, over 2
/// to the 63rd.
#[verifier::external_body]
fn single_from_u64(sample: u64) -> (bits: u32)
    ensures
        bits == single_bits(sample - 0x8000_0000_0000_0000, 63),
{
    dasp_sample::conv::u64::to_f32(sample).to_bits()
}

impl CustomSample for i8 {
    open spec fn target(self) -> TargetFormat {
        single_bits(self as int, 7) as u32
    }

    fn to_target(self) -> (bits: TargetFormat) {
        single_from_i8(self)
    }
}

impl CustomSample for i16 {
    open spec fn target(self) -> TargetFormat {
        single_bits(self as int, 15) as u32
    }

    fn to_target(self) -> (bits: TargetFormat) {
        single_from_i16(self)
    }
}

impl CustomSample for i32 {
    open spec fn target(self) -> TargetFormat {
        single_bits(self as int, 31) as u32
    }

    fn to_target(self) -> (bits: TargetFormat) {
        single_from_i32(self)
    }
}

impl CustomSample for i64 {
    open spec fn target(self) -> TargetFormat {
        single_bits(self as int, 63) as u32
    }

    fn to_target(self) -> (bits: TargetFormat) {
        single_from_i64(self)
    }
}

impl CustomSample for u8 {
    open spec fn target(self) -> TargetFormat {
        single_bits(self - 0x80, 7) as u32
    }

    fn to_target(self) -> (bits: TargetFormat) {
        single_from_u8(self)
    }
}

impl CustomSample for u16 {
    open spec fn target(self) -> TargetFormat {
        single_bits(self - 0x8000, 15) as u32
    }

    fn to_target(self) -> (bits: TargetFormat) {
        single_from_u16(self)
    }
}

impl CustomSample for u32 {
    open spec fn target(self) -> TargetFormat {
        single_bits(self - 0x8000_0000, 31) as u32
    }

    fn to_target(self) -> (bits: TargetFormat) {
        single_from_u32(self)
    }
}

impl CustomSample for u64 {
    open spec fn target(self) -> TargetFormat {
        single_bits(self - 0x8000_0000_0000_0000, 63) as u32
    }

    fn to_target(self) -> (bits: TargetFormat) {
        single_from_u64(self)
    }
}

impl CustomSample for Single {
    open spec fn target(self) -> TargetFormat {
        self.bits
    }

    fn to_target(self) -> (bits: TargetFormat) {
        self.bits
    }
}

/// Silence stays silence in every format: the middle of each range becomes [`EQUILIBRIUM`].
pub proof fn law_silence_stays_silence()
    ensures
        0i8.target() == EQUILIBRIUM,
        0i16.target() == EQUILIBRIUM,
        0i32.target() == EQUILIBRIUM,
        0i64.target() == EQUILIBRIUM,
        0x80u8.target() == EQUILIBRIUM,
        0x8000u16.target() == EQUILIBRIUM,
        0x8000_0000u32.target() == EQUILIBRIUM,
        0x8000_0000_0000_0000u64.target() == EQUILIBRIUM,
        (Single { bits: EQUILIBRIUM }).target() == EQUILIBRIUM,
{
}

} // verus!
