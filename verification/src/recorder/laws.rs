//! Laws that relate several functions of the recorder.

use super::constants::{CustomSample, TargetFormat, EQUILIBRIUM, RESAMPLER_BUFFER_SIZE};
use super::device::{DeviceConfig, SampleFormat};
use super::errors::AudioRecorderError;
use super::multiple_w_resampler::{BothResamplersSession, OneResamplerSession};
use super::record_multiple_spawner::{lower_rate, plan_for, resample_target, RecordingPlan};
use super::ring::{fitted, interleaved, lesser, overflow, padded, rest, silence};
use super::single_precision::lemma_single_bits_within_one;
use super::stream_resampler::kept;
use super::{RecorderConfig, RecorderState};
use vstd::arithmetic::div_mod::{
    lemma_add_mod_noop, lemma_mod_multiples_basic, lemma_mod_self_0, lemma_small_mod,
    lemma_sub_mod_noop,
};
use vstd::arithmetic::power2::{lemma2_to64, lemma2_to64_rest};
use vstd::prelude::*;

verus! {

/// The bit pattern is that of a number from -1 to 1.
pub open spec fn within_full_scale(bits: TargetFormat) -> bool {
    bits <= 0x3f80_0000 || 0x8000_0000 <= bits <= 0xbf80_0000
}

/// Every integer sample lies within full scale in the target format.
pub proof fn law_integer_samples_lie_within_full_scale(
    a: i8,
    b: i16,
    c: i32,
    d: i64,
    e: u8,
    f: u16,
    g: u32,
    h: u64,
)
    ensures
        within_full_scale(a.target()),
        within_full_scale(b.target()),
        within_full_scale(c.target()),
        within_full_scale(d.target()),
        within_full_scale(e.target()),
        within_full_scale(f.target()),
        within_full_scale(g.target()),
        within_full_scale(h.target()),
{
    lemma2_to64();
    lemma2_to64_rest();
    lemma_single_bits_within_one(a as int, 7);
    lemma_single_bits_within_one(b as int, 15);
    lemma_single_bits_within_one(c as int, 31);
    lemma_single_bits_within_one(d as int, 63);
    lemma_single_bits_within_one(e - 0x80, 7);
    lemma_single_bits_within_one(f - 0x8000, 15);
    lemma_single_bits_within_one(g - 0x8000_0000, 31);
    lemma_single_bits_within_one(h - 0x8000_0000_0000_0000, 63);
}

/// To stop twice is to stop once, to stop keeps the configuration, and a stopped recorder can be
/// started again.
pub proof fn law_stop(state: RecorderState)
    ensures
        state.stopped().stopped() == state.stopped(),
        state.stopped().config() == state.config(),
        !state.stopped().recording,
{
}

/// A new recorder does not record and has nothing fixed; one that was asked to record does record,
/// and has nothing fixed either; to stop changes nothing but that.
pub proof fn law_states(state: RecorderState)
    ensures
        !RecorderState::fresh().recording,
        RecorderState::begun().recording,
        RecorderState::fresh().target_sample_rate is None,
        RecorderState::fresh().channels is None,
        RecorderState::fresh().sample_size is None,
        RecorderState::begun().target_sample_rate is None,
        RecorderState::begun().channels is None,
        RecorderState::begun().sample_size is None,
        !state.stopped().recording,
        state.stopped().target_sample_rate == state.target_sample_rate,
        state.stopped().channels == state.channels,
        state.stopped().sample_size == state.sample_size,
{
}

/// There is a configuration exactly if rate, channels and sample size are all fixed, and it has
/// just these.
pub proof fn law_config_is_what_was_fixed(state: RecorderState)
    ensures
        state.config() is Some <==> {
            &&& state.target_sample_rate is Some
            &&& state.channels is Some
            &&& state.sample_size is Some
        },
        state.config() matches Some(config) ==> {
            &&& state.target_sample_rate == Some(config.sample_rate)
            &&& state.channels == Some(config.channels)
            &&& state.sample_size == Some(config.sample_size)
        },
{
}

/// A single device fixes everything anew, in whatever state: the rate is that of the device, and
/// channels and sample size are those asked for, or else those of the device.
pub proof fn law_single_device_fixes_everything(
    state: RecorderState,
    config: DeviceConfig,
    channels: Option<u16>,
    sample_size: Option<u32>,
)
    ensures
        ({
            let after = state.with_single(config, channels, sample_size);
            &&& after.recording == state.recording
            &&& after.target_sample_rate == Some(config.sample_rate)
            &&& channels is Some ==> after.channels == channels
            &&& channels is None ==> after.channels == Some(config.channels)
            &&& sample_size is Some ==> after.sample_size == sample_size
            &&& sample_size is None ==> after.sample_size == Some(
                config.sample_format.size() as u32,
            )
        }),
{
}

/// Two devices fix what is not fixed yet, each part by itself, in whatever state: the rate is the
/// lower of the two, there are two channels, and the sample size is that of the input.
pub proof fn law_two_devices_fix_what_is_open(
    state: RecorderState,
    input: DeviceConfig,
    output: DeviceConfig,
)
    ensures
        ({
            let after = state.with_multiple(input, output);
            &&& after.recording == state.recording
            &&& state.target_sample_rate is Some ==> after.target_sample_rate
                == state.target_sample_rate
            &&& state.channels is Some ==> after.channels == state.channels
            &&& state.sample_size is Some ==> after.sample_size == state.sample_size
            &&& state.target_sample_rate is None ==> {
                &&& after.target_sample_rate is Some
                &&& after.target_sample_rate->Some_0 <= input.sample_rate
                &&& after.target_sample_rate->Some_0 <= output.sample_rate
                &&& after.target_sample_rate->Some_0 == input.sample_rate
                    || after.target_sample_rate->Some_0 == output.sample_rate
            }
            &&& state.channels is None ==> after.channels == Some(2u16)
            &&& state.sample_size is None ==> after.sample_size == Some(
                input.sample_format.size() as u32,
            )
        }),
{
}

/// The lower of two rates is one of them, and above neither.
pub proof fn law_lower_rate_is_the_minimum(a: u32, b: u32)
    ensures
        lower_rate(a, b) <= a,
        lower_rate(a, b) <= b,
        lower_rate(a, b) == a || lower_rate(a, b) == b,
{
}

/// Whatever the target rate, the plan resamples exactly the streams that run at another rate, each
/// from its own rate to the target rate.
pub proof fn law_plan_resamples_each_stream_from_its_rate(target: u32, input: u32, output: u32)
    ensures
        input == target && output == target ==> plan_for(target, input, output)
            == RecordingPlan::WithoutResampler,
        input != target && output == target ==> plan_for(target, input, output)
            == (RecordingPlan::WithInputResampler {
            target_rate: target as usize,
            origin_rate: input as usize,
        }),
        input == target && output != target ==> plan_for(target, input, output)
            == (RecordingPlan::WithOutputResampler {
            target_rate: target as usize,
            origin_rate: output as usize,
        }),
        input != target && output != target ==> plan_for(target, input, output)
            == (RecordingPlan::WithBothResampler {
            target_rate: target as usize,
            input_origin_rate: input as usize,
            output_origin_rate: output as usize,
        }),
{
}

/// An error has a message exactly if it is of that kind and holds that text.
pub proof fn law_error_messages(error: AudioRecorderError, message: Seq<char>)
    ensures
        error.is_device_error(message) <==> error is DeviceError && error->DeviceError_0@
            == message,
        error.is_signal_error(message) <==> error is SignalError && error->SignalError_0@
            == message,
{
}

/// A format is refused by its name, in quotes, behind one text for all.
pub proof fn law_refusal_names_the_format(format: SampleFormat)
    ensures
        ({
            let text = "Unsupported sample format '"@;
            let name = format.label();
            let refusal = format.refusal();
            &&& refusal.len() == text.len() + name.len() + 1
            &&& refusal.take(text.len() as int) == text
            &&& refusal.subrange(text.len() as int, (text.len() + name.len()) as int) == name
            &&& refusal.last() == '\''
        }),
{
    reveal_strlit("'");
    let text = "Unsupported sample format '"@;
    let name = format.label();
    let refusal = format.refusal();
    assert(refusal.take(text.len() as int) =~= text);
    assert(refusal.subrange(text.len() as int, (text.len() + name.len()) as int) =~= name);
}

/// A sample takes as many bytes as the primitive type that it is stored in, whatever its sign, and
/// the recorder takes every format that is such a type itself: all but those of 24 bits and of
/// one-bit streams.
pub proof fn law_formats(format: SampleFormat)
    ensures
        format is I8 || format is U8 || format is DsdU8 <==> format.size() == 1,
        format is I16 || format is U16 || format is DsdU16 <==> format.size() == 2,
        format is I64 || format is U64 || format is F64 <==> format.size() == 8,
        format is I24 || format is U24 || format is I32 || format is U32 || format is F32
            || format is DsdU32 <==> format.size() == 4,
        !format.supported() <==> format is I24 || format is U24 || format is DsdU8
            || format is DsdU16 || format is DsdU32,
{
}

/// A recording that ends because a device is missing leaves the recorder as a new one.
pub proof fn law_missing_device_leaves_a_fresh_recorder()
    ensures
        RecorderState::begun().stopped() == RecorderState::fresh(),
{
}

/// A started recording from two devices is in progress and has a configuration: the lower of the
/// two rates, two channels, and the sample size of the input.
pub proof fn law_started_multiple_has_a_config(input: DeviceConfig, output: DeviceConfig)
    ensures
        ({
            let state = RecorderState::begun().with_multiple(input, output);
            &&& state.recording
            &&& state.config() == Some(
                RecorderConfig {
                    sample_rate: lower_rate(input.sample_rate, output.sample_rate),
                    channels: 2,
                    sample_size: input.sample_format.size() as u32,
                },
            )
        }),
{
}

/// A started recording from one device is in progress and has a configuration: the rate of the
/// device, and what was asked for or else what the device has.
pub proof fn law_started_single_has_a_config(
    config: DeviceConfig,
    channels: Option<u16>,
    sample_size: Option<u32>,
)
    ensures
        ({
            let state = RecorderState::begun().with_single(config, channels, sample_size);
            &&& state.recording
            &&& state.config() == Some(
                RecorderConfig {
                    sample_rate: config.sample_rate,
                    channels: channels.unwrap_or(config.channels),
                    sample_size: sample_size.unwrap_or(config.sample_format.size() as u32),
                },
            )
        }),
{
}

/// What a recording from two devices has fixed, no other such recording changes.
pub proof fn law_fixed_config_stays(
    state: RecorderState,
    input: DeviceConfig,
    output: DeviceConfig,
    later_input: DeviceConfig,
    later_output: DeviceConfig,
)
    ensures
        ({
            let fixed = state.with_multiple(input, output);
            fixed.with_multiple(later_input, later_output) == fixed
        }),
{
}

/// A started recording from two devices resamples only the faster stream, down to the rate of the
/// slower one, and nothing if the rates agree.
pub proof fn law_started_multiple_resamples_the_faster_stream(
    input: DeviceConfig,
    output: DeviceConfig,
)
    ensures
        ({
            let target = RecorderState::begun().with_multiple(
                input,
                output,
            ).target_sample_rate->Some_0;
            plan_for(target, input.sample_rate, output.sample_rate) == if input.sample_rate
                > output.sample_rate {
                RecordingPlan::WithInputResampler {
                    target_rate: output.sample_rate as usize,
                    origin_rate: input.sample_rate as usize,
                }
            } else if output.sample_rate > input.sample_rate {
                RecordingPlan::WithOutputResampler {
                    target_rate: input.sample_rate as usize,
                    origin_rate: output.sample_rate as usize,
                }
            } else {
                RecordingPlan::WithoutResampler
            }
        }),
{
}

/// Whatever the target rate, a stream is resampled exactly if its rate is another.
pub proof fn law_resampled_exactly_if_needed(target: u32, input: u32, output: u32)
    ensures
        ({
            let choice = resample_target(target, input, output);
            &&& (choice is Input || choice is Both) <==> input != target
            &&& (choice is Output || choice is Both) <==> output != target
        }),
{
}

/// A ring buffer is first in, first out: what is taken and what stays are together what was there.
pub proof fn law_taken_and_rest_are_all(contents: Seq<u32>, n: nat)
    requires
        n <= contents.len(),
    ensures
        padded(contents, n) + rest(contents, n) == contents,
{
    assert(padded(contents, n) + rest(contents, n) =~= contents);
}

/// Samples that fit are read back as they were written, behind those that were there before.
pub proof fn law_read_gives_back_what_was_written(
    contents: Seq<u32>,
    capacity: nat,
    data: Seq<u32>,
)
    requires
        contents.len() + data.len() <= capacity,
    ensures
        padded(rest(fitted(contents, capacity, data), contents.len()), data.len()) == data,
        overflow(contents, capacity, data) == 0,
{
    assert(padded(rest(fitted(contents, capacity, data), contents.len()), data.len()) =~= data);
}

/// What does not fit is lost from the end of what is written, and what was there before stays.
pub proof fn law_overflow_drops_the_newest(contents: Seq<u32>, capacity: nat, data: Seq<u32>)
    requires
        contents.len() <= capacity,
    ensures
        fitted(contents, capacity, data).len() <= capacity,
        fitted(contents, capacity, data).len() + overflow(contents, capacity, data)
            == contents.len() + data.len(),
        fitted(contents, capacity, data).is_prefix_of(contents + data),
        overflow(contents, capacity, data) > 0 ==> fitted(contents, capacity, data).len()
            == capacity,
{
    let kept = fitted(contents, capacity, data);
    assert(kept =~= (contents + data).take(kept.len() as int));
}

/// It makes no difference in how many pieces a stream is written.
pub proof fn law_writes_join(contents: Seq<u32>, capacity: nat, first: Seq<u32>, second: Seq<u32>)
    requires
        contents.len() <= capacity,
    ensures
        fitted(fitted(contents, capacity, first), capacity, second) == fitted(
            contents,
            capacity,
            first + second,
        ),
        overflow(contents, capacity, first) + overflow(
            fitted(contents, capacity, first),
            capacity,
            second,
        ) == overflow(contents, capacity, first + second),
{
    assert(fitted(fitted(contents, capacity, first), capacity, second) =~= fitted(
        contents,
        capacity,
        first + second,
    ));
}

/// It makes no difference in how many pieces a ring buffer is read, and what is missing is silent
/// either way.
pub proof fn law_reads_join(contents: Seq<u32>, a: nat, b: nat)
    ensures
        padded(contents, a) + padded(rest(contents, a), b) == padded(contents, a + b),
        rest(rest(contents, a), b) == rest(contents, a + b),
{
    assert(padded(contents, a) + padded(rest(contents, a), b) =~= padded(contents, a + b));
    assert(rest(rest(contents, a), b) =~= rest(contents, a + b));
}

/// Interleaving loses nothing: the even places hold the first channel, the odd ones the second.
pub proof fn law_interleaving_keeps_both_channels(first: Seq<u32>, second: Seq<u32>)
    requires
        first.len() == second.len(),
    ensures
        interleaved(first, second).len() == first.len() + second.len(),
        forall|i: int|
            0 <= i < first.len() ==> {
                &&& interleaved(first, second)[2 * i] == #[trigger] first[i]
                &&& interleaved(first, second)[2 * i + 1] == second[i]
            },
{
}

/// It makes no difference in how many pieces the input of a recording without a resampler comes.
pub proof fn law_pairing_joins(contents: Seq<u32>, first: Seq<u32>, second: Seq<u32>)
    ensures
        interleaved(first, padded(contents, first.len())) + interleaved(
            second,
            padded(rest(contents, first.len()), second.len()),
        ) == interleaved(first + second, padded(contents, first.len() + second.len())),
{
    let n = first.len() as int;
    let left = interleaved(first, padded(contents, first.len())) + interleaved(
        second,
        padded(rest(contents, first.len()), second.len()),
    );
    let right = interleaved(first + second, padded(contents, first.len() + second.len()));
    assert forall|i: int| 0 <= i < left.len() implies left[i] == right[i] by {
        if i >= 2 * n {
            assert((i - 2 * n) / 2 == i / 2 - n);
            assert((i - 2 * n) % 2 == i % 2);
        }
    }
    assert(left =~= right);
}

/// A block of output samples that is written into a recording without a resampler, and the number
/// of input samples that come next, each of which reads one.
pub struct Round {
    /// The output samples.
    pub written: Seq<u32>,
    /// The number of input samples.
    pub reads: nat,
}

/// What the last of some rounds finds to read.
pub open spec fn before_reads(latency: nat, rounds: Seq<Round>) -> Seq<u32>
    recommends
        rounds.len() > 0,
    decreases rounds.len(), 0nat,
{
    if rounds.len() == 0 {
        silence(latency)
    } else {
        fitted(waiting(latency, rounds.drop_last()), 2 * latency, rounds.last().written)
    }
}

/// What waits in the ring buffer of a new recording after some rounds.
pub open spec fn waiting(latency: nat, rounds: Seq<Round>) -> Seq<u32>
    decreases rounds.len(), 1nat,
{
    if rounds.len() == 0 {
        silence(latency)
    } else {
        rest(before_reads(latency, rounds), rounds.last().reads)
    }
}

/// The samples read in some rounds, silence standing for those that were missing.
pub open spec fn read(latency: nat, rounds: Seq<Round>) -> Seq<u32>
    decreases rounds.len(),
{
    if rounds.len() == 0 {
        Seq::empty()
    } else {
        read(latency, rounds.drop_last()) + padded(
            before_reads(latency, rounds),
            rounds.last().reads,
        )
    }
}

/// The samples that left the ring buffer in some rounds: those read, without the missing ones.
pub open spec fn delivered(latency: nat, rounds: Seq<Round>) -> Seq<u32>
    decreases rounds.len(),
{
    if rounds.len() == 0 {
        Seq::empty()
    } else {
        let found = before_reads(latency, rounds);
        delivered(latency, rounds.drop_last()) + found.take(
            lesser(rounds.last().reads as int, found.len() as int),
        )
    }
}

/// The samples written in some rounds that fit.
pub open spec fn accepted(latency: nat, rounds: Seq<Round>) -> Seq<u32>
    decreases rounds.len(),
{
    if rounds.len() == 0 {
        Seq::empty()
    } else {
        let written = rounds.last().written;
        accepted(latency, rounds.drop_last()) + written.take(
            lesser(
                written.len() as int,
                2 * latency - waiting(latency, rounds.drop_last()).len(),
            ),
        )
    }
}

/// The output lags one latency behind the input, whatever is written and read in turn: the first
/// `latency` samples read are silent; behind that silence come the samples that fit, in order and
/// each once; and no more than twice the latency ever waits. Where no sample was missing, the
/// samples read are just these.
pub proof fn law_output_lags_by_the_latency(latency: nat, rounds: Seq<Round>)
    ensures
        forall|i: int|
            0 <= i < latency && i < read(latency, rounds).len() ==> #[trigger] read(
                latency,
                rounds,
            )[i] == EQUILIBRIUM,
        waiting(latency, rounds).len() <= 2 * latency,
        delivered(latency, rounds) + waiting(latency, rounds) == silence(latency) + accepted(
            latency,
            rounds,
        ),
        delivered(latency, rounds).len() <= read(latency, rounds).len(),
        delivered(latency, rounds).len() == read(latency, rounds).len() || delivered(
            latency,
            rounds,
        ).len() < latency ==> delivered(latency, rounds) == read(latency, rounds),
    decreases rounds.len(),
{
    let out = delivered(latency, rounds);
    let all = read(latency, rounds);
    if rounds.len() > 0 {
        let front = rounds.drop_last();
        law_output_lags_by_the_latency(latency, front);
        let n = rounds.last().reads;
        let found = before_reads(latency, rounds);
        let taken = found.take(lesser(n as int, found.len() as int));
        let left = delivered(latency, front) + waiting(latency, front);
        let start = silence(latency) + accepted(latency, front);
        assert(taken + waiting(latency, rounds) =~= found);
        assert(out + waiting(latency, rounds) =~= delivered(latency, front) + found);
        assert(delivered(latency, front) + found =~= silence(latency) + accepted(latency, rounds))
            by {
            let fit = rounds.last().written.take(
                lesser(
                    rounds.last().written.len() as int,
                    2 * latency - waiting(latency, front).len(),
                ),
            );
            assert(delivered(latency, front) + found =~= left + fit);
            assert(silence(latency) + accepted(latency, rounds) =~= start + fit);
        }
        assert forall|i: int| 0 <= i < latency && i < all.len() implies all[i] == EQUILIBRIUM by {
            let before = delivered(latency, front);
            if i >= read(latency, front).len() {
                let j = i - read(latency, front).len();
                if j < found.len() {
                    // Reads that came before found all they asked for.
                    assert(before.len() <= i);
                    if before.len() < latency {
                        assert(before == read(latency, front));
                        assert((before + found)[i] == found[j]);
                        assert((silence(latency) + accepted(latency, rounds))[i] == EQUILIBRIUM);
                    }
                }
            }
        }
        if out.len() == all.len() || out.len() < latency {
            assert(delivered(latency, front) == read(latency, front));
            assert(taken =~= padded(found, n));
        }
    }
    assert(out.len() == all.len() || out.len() < latency ==> out =~= all);
}

/// Of a single block that is written into a new recording without a resampler, the first
/// `latency` samples are read, behind `latency` silent ones and before silence.
pub proof fn law_first_block_lags_by_the_latency(latency: nat, output: Seq<u32>, inputs: nat)
    ensures
        ({
            let contents = fitted(silence(latency), 2 * latency, output);
            let popped = padded(contents, inputs);
            forall|i: int|
                0 <= i < inputs ==> #[trigger] popped[i] == if latency <= i < latency + lesser(
                    output.len() as int,
                    latency as int,
                ) {
                    output[i - latency]
                } else {
                    EQUILIBRIUM
                }
        }),
{
}

/// Samples that are missing are silent, behind all that were there.
pub proof fn law_missing_samples_are_silent(contents: Seq<u32>, n: nat)
    requires
        contents.len() <= n,
    ensures
        padded(contents, n) == contents + silence((n - contents.len()) as nat),
        rest(contents, n).len() == 0,
{
    assert(padded(contents, n) =~= contents + silence((n - contents.len()) as nat));
}

/// No silence is mixed into a stream that has a whole block of samples.
pub proof fn law_full_stream_is_not_padded(contents: Seq<u32>, n: nat)
    requires
        n <= contents.len(),
    ensures
        padded(contents, n) == contents.take(n as int),
{
    assert(padded(contents, n) =~= contents.take(n as int));
}

/// A session with one resampler never mixes a block at a target rate beyond the capacity of its
/// ring buffers.
pub proof fn law_no_block_beyond_the_buffer(session: OneResamplerSession)
    requires
        session.wf(),
        session.target_rate > RESAMPLER_BUFFER_SIZE,
    ensures
        !session.block_ready(),
{
}

/// Nor does a session with two resamplers.
pub proof fn law_no_mixed_block_beyond_the_buffer(session: BothResamplersSession)
    requires
        session.wf(),
        session.target_rate > RESAMPLER_BUFFER_SIZE,
    ensures
        !session.block_ready(),
{
}

/// A linear resampler that is fed whole frames keeps whole frames, and at least one.
pub proof fn law_whole_frames_stay_whole(
    leftover: Seq<u32>,
    input: Seq<u32>,
    channels: nat,
    frames: nat,
)
    requires
        channels > 0,
        leftover.len() % channels == 0,
        input.len() % channels == 0,
    ensures
        kept(leftover + input, channels, frames).len() % channels == 0,
        kept(leftover + input, channels, frames).len() >= channels,
{
    let len = (leftover + input).len() as int;
    let c = channels as int;
    lemma_add_mod_noop(leftover.len() as int, input.len() as int, c);
    lemma_small_mod(0, channels);
    assert(len % c == 0);
    lemma_mod_multiples_basic(frames as int, c);
    lemma_sub_mod_noop(len, frames * c, c);
    assert((len - frames * c) % c == 0);
    lemma_mod_self_0(c);
    let rest_len = len - frames * c;
    if 0 < rest_len < c {
        lemma_small_mod(rest_len as nat, channels);
    }
}

/// A linear resampler passes samples over in order: those it has passed and those it keeps are
/// together those it had, as long as some are kept.
pub proof fn law_passed_and_kept_are_all(samples: Seq<u32>, channels: nat, frames: nat)
    requires
        frames * channels < samples.len(),
    ensures
        samples.take((frames * channels) as int) + kept(samples, channels, frames) == samples,
{
    assert(samples.take((frames * channels) as int) + kept(samples, channels, frames) =~= samples);
}

} // verus!
