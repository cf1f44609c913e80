//! A linear resampler for interleaved streams: which samples it interpolates between, and what it
//! keeps from one call to the next.
//!
//! The position in the stream advances by a floating-point ratio, and the interpolation itself is
//! floating-point arithmetic. Both are the caller's. This module holds the frames: it pairs the
//! samples on both sides of each position, and keeps the frames that have not been passed.

use super::constants::{TargetFormat, EQUILIBRIUM};
use super::ring::{lesser, silence};
use vstd::arithmetic::div_mod::{lemma_fundamental_div_mod, lemma_fundamental_div_mod_converse};
use vstd::prelude::*;

verus! {

/// The frames of a linear resampler.
#[derive(Debug)]
pub struct StreamResampler {
    /// Frames per second of the stream that comes in.
    pub input_rate: u32,
    /// Frames per second of the stream that goes out.
    pub output_rate: u32,
    /// Samples per frame.
    pub channels: usize,
    /// The samples that have not been passed yet.
    pub leftover: Vec<TargetFormat>,
}

/// What a call of [`StreamResampler::process`] gives to interpolate.
#[derive(Debug)]
pub struct FramePairs {
    /// How many of the positions were used.
    pub steps: usize,
    /// For each used position and each channel, the samples before and after the position.
    pub pairs: Vec<(TargetFormat, TargetFormat)>,
    /// The frames that the stream advanced by.
    pub consumed_frames: usize,
}

/// Positions as mathematical integers.
pub open spec fn frame_numbers(positions: Seq<usize>) -> Seq<int> {
    Seq::new(positions.len(), |i: int| positions[i] as int)
}

/// The samples on both sides of each position, channel by channel.
pub open spec fn pairs_at(samples: Seq<u32>, channels: nat, positions: Seq<int>) -> Seq<
    (u32, u32),
> {
    Seq::new(
        positions.len() * channels,
        |k: int|
            {
                let before = positions[k / channels as int] * channels + k % channels as int;
                (samples[before], samples[before + channels])
            },
    )
}

/// What is kept of `samples` once `frames` frames have been passed: the rest, or one silent frame.
pub open spec fn kept(samples: Seq<u32>, channels: nat, frames: nat) -> Seq<u32> {
    if frames * channels < samples.len() {
        samples.skip((frames * channels) as int)
    } else {
        silence(channels)
    }
}

impl StreamResampler {
    /// The samples that a call with `input` works on.
    pub open spec fn combined(self, input: Seq<u32>) -> Seq<u32> {
        self.leftover@ + input
    }

    /// The whole frames that a call with `input` works on.
    pub open spec fn frames_with(self, input: Seq<u32>) -> nat {
        self.combined(input).len() / self.channels as nat
    }

    /// Everything but the samples that are kept.
    pub open spec fn same_setup(self, other: StreamResampler) -> bool {
        &&& self.input_rate == other.input_rate
        &&& self.output_rate == other.output_rate
        &&& self.channels == other.channels
    }

    /// A resampler that starts with one silent frame.
    pub fn new(input_rate: u32, output_rate: u32, channels: u16) -> (resampler: Self)
        ensures
            resampler.input_rate == input_rate,
            resampler.output_rate == output_rate,
            resampler.channels == channels,
            resampler.leftover@ == silence(channels as nat),
    {
        let channels: usize = channels as usize;
        let leftover: Vec<TargetFormat> = vec![EQUILIBRIUM; channels];
        assert(leftover@ =~= silence(channels as nat));
        StreamResampler { input_rate, output_rate, channels, leftover }
    }

    /// The whole frames that a call with `input_len` samples works on.
    pub fn total_frames(&self, input_len: usize) -> (frames: usize)
        requires
            self.channels > 0,
            self.leftover@.len() + input_len <= usize::MAX,
        ensures
            frames == (self.leftover@.len() + input_len) / self.channels as int,
    {
        (self.leftover.len() + input_len) / self.channels
    }

    /// Takes samples in, pairs the samples on both sides of each position, and keeps what lies
    /// behind `end_position`. Positions are whole frames; the first one that has no frame behind
    /// it ends the pairing. Without input nothing happens.
    pub fn process(
        &mut self,
        input: &[TargetFormat],
        positions: &[usize],
        end_position: usize,
    ) -> (result: FramePairs)
        requires
            input@.len() > 0 ==> old(self).channels > 0,
            old(self).leftover@.len() + input@.len() <= usize::MAX,
        ensures
            final(self).same_setup(*old(self)),
            input@.len() == 0 ==> {
                &&& result.steps == 0
                &&& result.pairs@.len() == 0
                &&& result.consumed_frames == 0
                &&& final(self).leftover@ == old(self).leftover@
            },
            input@.len() > 0 ==> {
                let samples = old(self).combined(input@);
                let frames = old(self).frames_with(input@);
                &&& result.steps <= positions@.len()
                &&& forall|i: int| 0 <= i < result.steps ==> #[trigger] positions@[i] + 1 < frames
                &&& result.steps < positions@.len() ==> positions@[result.steps as int] + 1
                    >= frames
                &&& result.pairs@ == pairs_at(
                    samples,
                    old(self).channels as nat,
                    frame_numbers(positions@.take(result.steps as int)),
                )
                &&& result.consumed_frames == lesser(end_position as int, frames as int)
                &&& final(self).leftover@ == kept(
                    samples,
                    old(self).channels as nat,
                    result.consumed_frames as nat,
                )
            },
    {
        let mut pairs: Vec<(TargetFormat, TargetFormat)> = Vec::new();
        if input.len() == 0 {
            return FramePairs { steps: 0, pairs, consumed_frames: 0 };
        }
        let channels: usize = self.channels;
        let mut combined: Vec<TargetFormat> = Vec::new();
        combined.extend_from_slice(self.leftover.as_slice());
        combined.extend_from_slice(input);
        let ghost samples = self.combined(input@);
        assert(combined@ =~= samples);
        let total_frames: usize = combined.len() / channels;
        proof {
            lemma_fundamental_div_mod(combined@.len() as int, channels as int);
        }
        let mut steps: usize = 0;
        proof {
            let none = frame_numbers(positions@.take(0));
            assert(none.len() * channels == 0) by (nonlinear_arith)
                requires
                    none.len() == 0,
            ;
            assert(pairs@ =~= pairs_at(samples, channels as nat, none));
        }
        while steps < positions.len() && positions[steps] < total_frames && positions[steps] + 1
            < total_frames
            invariant
                channels > 0,
                combined@ == samples,
                channels * total_frames <= combined@.len(),
                combined@.len() <= usize::MAX,
                steps <= positions@.len(),
                forall|i: int| 0 <= i < steps ==> #[trigger] positions@[i] + 1 < total_frames,
                pairs@ == pairs_at(
                    samples,
                    channels as nat,
                    frame_numbers(positions@.take(steps as int)),
                ),
            decreases positions@.len() - steps,
        {
            let idx: usize = positions[steps];
            let ghost done = pairs@;
            let mut ch: usize = 0;
            proof {
                assert((idx + 1) * channels == idx * channels + channels) by (nonlinear_arith);
                assert((idx + 1) * channels + channels <= channels * total_frames)
                    by (nonlinear_arith)
                    requires
                        idx + 2 <= total_frames,
                ;
            }
            while ch < channels
                invariant
                    ch <= channels,
                    channels > 0,
                    combined@ == samples,
                    steps < positions@.len(),
                    idx == positions@[steps as int],
                    idx + 1 < total_frames,
                    (idx + 1) * channels == idx * channels + channels,
                    (idx + 1) * channels + channels <= combined@.len(),
                    combined@.len() <= usize::MAX,
                    done == pairs_at(
                        samples,
                        channels as nat,
                        frame_numbers(positions@.take(steps as int)),
                    ),
                    done.len() == steps * channels,
                    pairs@.len() == steps * channels + ch,
                    forall|k: int| 0 <= k < done.len() ==> pairs@[k] == #[trigger] done[k],
                    forall|c: int|
                        0 <= c < ch ==> #[trigger] pairs@[steps * channels + c] == (
                            samples[idx * channels + c],
                            samples[idx * channels + c + channels],
                        ),
                decreases channels - ch,
            {
                pairs.push((combined[idx * channels + ch], combined[(idx + 1) * channels + ch]));
                ch = ch + 1;
            }
            proof {
                let longer = frame_numbers(positions@.take(steps + 1));
                let all = pairs_at(samples, channels as nat, longer);
                assert((steps + 1) * channels == steps * channels + channels)
                    by (nonlinear_arith);
                assert forall|k: int| 0 <= k < all.len() implies pairs@[k] == all[k] by {
                    let q = k / (channels as int);
                    let c = k % (channels as int);
                    lemma_fundamental_div_mod(k, channels as int);
                    if k < steps * channels {
                        assert(pairs@[k] == done[k]);
                        assert(0 <= q < steps) by (nonlinear_arith)
                            requires
                                0 <= k < steps * channels,
                                k == channels * q + c,
                                0 <= c < channels,
                                channels > 0,
                        ;
                    } else {
                        let c = k - steps * channels;
                        lemma_fundamental_div_mod_converse(
                            k,
                            channels as int,
                            steps as int,
                            c,
                        );
                        assert(pairs@[steps * channels + c] == pairs@[k]);
                    }
                }
                assert(pairs@ =~= all);
            }
            steps = steps + 1;
        }
        let consumed_frames: usize = if end_position < total_frames {
            end_position
        } else {
            total_frames
        };
        proof {
            assert(consumed_frames * channels <= channels * total_frames) by (nonlinear_arith)
                requires
                    consumed_frames <= total_frames,
            ;
        }
        let remaining_start: usize = consumed_frames * channels;
        if remaining_start < combined.len() {
            let remaining: Vec<TargetFormat> = combined.split_off(remaining_start);
            assert(remaining@ =~= samples.skip(remaining_start as int));
            self.leftover = remaining;
        } else {
            let frame: Vec<TargetFormat> = vec![EQUILIBRIUM; channels];
            assert(frame@ =~= silence(channels as nat));
            self.leftover = frame;
        }
        FramePairs { steps, pairs, consumed_frames }
    }

    /// Forgets what was kept and starts over with one silent frame.
    pub fn reset(&mut self)
        ensures
            final(self).same_setup(*old(self)),
            final(self).leftover@ == silence(old(self).channels as nat),
    {
        let leftover: Vec<TargetFormat> = vec![EQUILIBRIUM; self.channels];
        assert(leftover@ =~= silence(self.channels as nat));
        self.leftover = leftover;
    }
}

} // verus!
