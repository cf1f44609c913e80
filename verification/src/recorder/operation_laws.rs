//! Laws of the operations: what holds of the arguments and the results of every call, stated sample
//! by sample and field by field.

use super::constants::{CustomSample, Single, TargetFormat};
use super::device::{DeviceConfig, SampleFormat};
use super::errors::AudioRecorderError;
use super::multiple_w_resampler::{
    BothResamplersSession, MixedBlock, OneResamplerSession, ResampleLane,
};
use super::multiple_wo_resampler::{latency_sample_count, DirectSession};
use super::record_multiple_spawner::RecordingPlan;
use super::record_single_device::{parse_samples, StreamOutcome};
use super::ring::{interleave, ring_capacity, ring_contents};
use super::session_laws::law_latency_in_samples_is_150_milliseconds;
use super::single_precision::{latency_frame_count, law_latency_is_150_milliseconds};
use super::stream_resampler::{FramePairs, StreamResampler};
use super::walk::law_pairs_hold_both_sides;
use super::{Recorder, RecorderConfig, StartRequest};
use vstd::arithmetic::div_mod::lemma_fundamental_div_mod;
use vstd::prelude::*;

verus! {

/// A sample that is single precision already is converted to itself, whatever it is.
pub proof fn law_converting_single_precision_changes_nothing(sample: Single, converted: u32)
    requires
        call_ensures(<Single as CustomSample>::to_target, (sample,), converted),
    ensures
        converted == sample.bits,
{
}

/// A single device hands on every sample that it delivered, converted and in its place.
pub proof fn law_every_delivered_sample_is_handed_on<T: CustomSample>(
    data: &[T],
    parsed: Vec<TargetFormat>,
)
    requires
        call_ensures(parse_samples::<T>, (data,), parsed),
    ensures
        parsed@.len() == data@.len(),
        forall|i: int| 0 <= i < data@.len() ==> #[trigger] parsed@[i] == data@[i].target(),
{
}

/// It makes no difference in how many buffers a single device delivers its samples.
pub proof fn law_buffers_of_a_single_device_join<T: CustomSample>(
    first: &[T],
    second: &[T],
    both: &[T],
    parsed_first: Vec<TargetFormat>,
    parsed_second: Vec<TargetFormat>,
    parsed_both: Vec<TargetFormat>,
)
    requires
        both@ == first@ + second@,
        call_ensures(parse_samples::<T>, (first,), parsed_first),
        call_ensures(parse_samples::<T>, (second,), parsed_second),
        call_ensures(parse_samples::<T>, (both,), parsed_both),
    ensures
        parsed_both@ == parsed_first@ + parsed_second@,
{
    law_every_delivered_sample_is_handed_on(first, parsed_first);
    law_every_delivered_sample_is_handed_on(second, parsed_second);
    law_every_delivered_sample_is_handed_on(both, parsed_both);
    assert(parsed_both@ =~= parsed_first@ + parsed_second@);
}

/// A single device of single precision hands on just the bit patterns that it delivered.
pub proof fn law_delivered_single_precision_is_handed_on(data: &[Single], parsed: Vec<TargetFormat>)
    requires
        call_ensures(parse_samples::<Single>, (data,), parsed),
    ensures
        parsed@.len() == data@.len(),
        forall|i: int| 0 <= i < data@.len() ==> #[trigger] parsed@[i] == data@[i].bits,
{
}

/// A linear resampler gives, for each position that it used and each channel, the sample of the
/// frame at the position and that of the next frame, of what it had kept and then what came in. It
/// uses positions until one has no next frame. It passes as many frames as it is told, or all, and
/// keeps the samples behind them, or one silent frame.
pub proof fn law_resampling_pairs_each_frame_with_the_next(
    resampler: &mut StreamResampler,
    input: &[TargetFormat],
    positions: &[usize],
    end_position: usize,
    result: FramePairs,
)
    requires
        input@.len() > 0,
        old(resampler).channels > 0,
        call_ensures(
            StreamResampler::process,
            (resampler, input, positions, end_position),
            result,
        ),
    ensures
        ({
            let samples = old(resampler).leftover@ + input@;
            let channels = old(resampler).channels as int;
            let frames = samples.len() as int / channels;
            let steps = result.steps as int;
            let passed = result.consumed_frames * channels;
            &&& 0 <= steps <= positions@.len()
            &&& forall|i: int| 0 <= i < steps ==> #[trigger] positions@[i] + 1 < frames
            &&& steps < positions@.len() ==> positions@[steps] + 1 >= frames
            &&& result.pairs@.len() == steps * channels
            &&& forall|i: int, c: int|
                0 <= i < steps && 0 <= c < channels ==> #[trigger] result.pairs@[i * channels + c]
                    == (
                    samples[positions@[i] * channels + c],
                    samples[(positions@[i] + 1) * channels + c],
                )
            &&& result.consumed_frames == if end_position <= frames {
                end_position as int
            } else {
                frames
            }
            &&& passed < samples.len() ==> final(resampler).leftover@ == samples.skip(passed)
            &&& passed >= samples.len() ==> {
                &&& final(resampler).leftover@.len() == channels
                &&& forall|i: int|
                    0 <= i < channels ==> #[trigger] final(resampler).leftover@[i] == 0
            }
            &&& final(resampler).channels == old(resampler).channels
            &&& final(resampler).input_rate == old(resampler).input_rate
            &&& final(resampler).output_rate == old(resampler).output_rate
        }),
{
    let samples = old(resampler).leftover@ + input@;
    let channels = old(resampler).channels as nat;
    let used = super::stream_resampler::frame_numbers(positions@.take(result.steps as int));
    assert(used.len() == result.steps);
    assert forall|i: int, c: int|
        0 <= i < result.steps && 0 <= c < channels implies #[trigger] result.pairs@[i * channels
        + c] == (
        samples[positions@[i] * channels + c],
        samples[(positions@[i] + 1) * channels + c],
    ) by {
        law_pairs_hold_both_sides(samples, channels, used, i, c);
    }
}

/// A linear resampler that gets no input gives nothing and changes nothing.
pub proof fn law_resampling_nothing_changes_nothing(
    resampler: &mut StreamResampler,
    input: &[TargetFormat],
    positions: &[usize],
    end_position: usize,
    result: FramePairs,
)
    requires
        input@.len() == 0,
        call_ensures(
            StreamResampler::process,
            (resampler, input, positions, end_position),
            result,
        ),
    ensures
        result.steps == 0,
        result.pairs@.len() == 0,
        result.consumed_frames == 0,
        final(resampler).leftover@ == old(resampler).leftover@,
        final(resampler).channels == old(resampler).channels,
        final(resampler).input_rate == old(resampler).input_rate,
        final(resampler).output_rate == old(resampler).output_rate,
{
}

/// A new linear resampler has the rates and channels asked for and one silent frame, and one that
/// was reset has these again.
pub proof fn law_new_resampler(
    input_rate: u32,
    output_rate: u32,
    channels: u16,
    fresh: StreamResampler,
    used: &mut StreamResampler,
)
    requires
        call_ensures(StreamResampler::new, (input_rate, output_rate, channels), fresh),
        call_ensures(StreamResampler::reset, (used,), ()),
    ensures
        fresh.input_rate == input_rate,
        fresh.output_rate == output_rate,
        fresh.channels == channels,
        fresh.leftover@.len() == channels,
        forall|i: int| 0 <= i < channels ==> #[trigger] fresh.leftover@[i] == 0,
        final(used).channels == old(used).channels,
        final(used).input_rate == old(used).input_rate,
        final(used).output_rate == old(used).output_rate,
        final(used).leftover@.len() == old(used).channels,
        forall|i: int| 0 <= i < old(used).channels ==> #[trigger] final(used).leftover@[i] == 0,
{
}

/// A linear resampler counts the whole frames of what it kept and what comes in.
pub proof fn law_whole_frames_are_counted(
    resampler: &StreamResampler,
    input_len: usize,
    frames: usize,
)
    requires
        resampler.channels > 0,
        call_ensures(StreamResampler::total_frames, (resampler, input_len), frames),
    ensures
        frames * resampler.channels <= resampler.leftover@.len() + input_len,
        resampler.leftover@.len() + input_len < (frames + 1) * resampler.channels,
{
    let c = resampler.channels as int;
    lemma_fundamental_div_mod(resampler.leftover@.len() + input_len, c);
    assert(frames * c == c * frames && (frames + 1) * c == c * frames + c) by (nonlinear_arith);
}

/// A lane hands out a chunk exactly if it has a resampler and as many samples wait as that takes
/// next, however many. The chunk is the eldest samples, and those behind it stay.
pub proof fn law_chunks_are_handed_out(lane: &mut ResampleLane, chunk: Option<Vec<TargetFormat>>)
    requires
        call_ensures(ResampleLane::next_chunk, (lane,), chunk),
    ensures
        old(lane).next_input_frames is None ==> chunk is None,
        old(lane).next_input_frames matches Some(n) ==> (chunk is Some <==> ring_contents(
            old(lane).raw,
        ).len() >= n),
        chunk matches Some(samples) ==> {
            &&& Some(samples@.len() as usize) == old(lane).next_input_frames
            &&& samples@ + ring_contents(final(lane).raw) == ring_contents(old(lane).raw)
        },
        chunk is None ==> ring_contents(final(lane).raw) == ring_contents(old(lane).raw),
        final(lane).resampled == old(lane).resampled,
        final(lane).next_input_frames == old(lane).next_input_frames,
{
    if let Some(samples) = chunk {
        assert(samples@ + ring_contents(final(lane).raw) =~= ring_contents(old(lane).raw));
    }
}

/// Samples that are written into a lane wait behind those that were there, as far as there are
/// places, and the others are counted.
pub proof fn law_lane_takes_samples<T: CustomSample>(
    lane: &mut ResampleLane,
    mono: &[T],
    dropped: usize,
)
    requires
        old(lane).wf(),
        call_ensures(ResampleLane::write_data::<T>, (lane, mono), dropped),
    ensures
        ({
            let before = ring_contents(old(lane).raw);
            let after = ring_contents(final(lane).raw);
            &&& after.len() + dropped == before.len() + mono@.len()
            &&& after.len() <= 88200
            &&& dropped > 0 ==> after.len() == 88200
            &&& after.take(before.len() as int) == before
            &&& forall|i: int|
                before.len() <= i < after.len() ==> #[trigger] after[i] == mono@[i
                    - before.len()].target()
            &&& final(lane).resampled == old(lane).resampled
            &&& final(lane).next_input_frames == old(lane).next_input_frames
        }),
{
    let before = ring_contents(old(lane).raw);
    let after = ring_contents(final(lane).raw);
    assert(after.take(before.len() as int) =~= before);
}

/// As many samples as a resampler takes next, written into a lane that has places for them, make
/// the lane hand out a chunk.
pub proof fn law_written_samples_are_handed_out<T: CustomSample>(
    lane: &mut ResampleLane,
    later: &mut ResampleLane,
    mono: &[T],
    dropped: usize,
    chunk: Option<Vec<TargetFormat>>,
)
    requires
        old(lane).wf(),
        ring_contents(old(lane).raw).len() == 0,
        old(lane).next_input_frames == Some(mono@.len() as usize),
        mono@.len() <= 88200,
        call_ensures(ResampleLane::write_data::<T>, (lane, mono), dropped),
        *old(later) == *final(lane),
        call_ensures(ResampleLane::next_chunk, (later,), chunk),
    ensures
        dropped == 0,
        chunk is Some,
        chunk->Some_0@.len() == mono@.len(),
        forall|i: int|
            0 <= i < mono@.len() ==> #[trigger] chunk->Some_0@[i] == mono@[i].target(),
        ring_contents(final(later).raw).len() == 0,
{
    law_lane_takes_samples(lane, mono, dropped);
    law_chunks_are_handed_out(later, chunk);
    let samples = chunk->Some_0@;
    let waiting = ring_contents(old(later).raw);
    assert forall|i: int| 0 <= i < mono@.len() implies #[trigger] samples[i] == mono@[i].target() by {
        assert((samples + ring_contents(final(later).raw))[i] == waiting[i]);
    }
}

/// What a resampler made of a chunk waits behind what it made before, as far as there are places,
/// and it takes next what it says. A chunk that it failed on leaves no trace.
pub proof fn law_resampled_chunks_queue_up(
    lane: &mut ResampleLane,
    outcome: Option<(&[TargetFormat], usize)>,
)
    requires
        old(lane).wf(),
        call_ensures(ResampleLane::chunk_resampled, (lane, outcome), ()),
    ensures
        outcome matches Some((output, input_frames)) ==> {
            let before = ring_contents(old(lane).resampled);
            let after = ring_contents(final(lane).resampled);
            let wanted = before.len() + output@.len();
            &&& final(lane).next_input_frames == Some(input_frames)
            &&& after.len() == if wanted <= 88200 { wanted as int } else { 88200 }
            &&& after == (before + output@).take(after.len() as int)
            &&& final(lane).raw == old(lane).raw
        },
        outcome is None ==> *final(lane) == *old(lane),
{
    if let Some((output, input_frames)) = outcome {
        let before = ring_contents(old(lane).resampled);
        let after = ring_contents(final(lane).resampled);
        assert(after =~= (before + output@).take(after.len() as int));
    }
}

/// A resampler that is ready is taken note of.
pub proof fn law_resampler_is_ready(lane: &mut ResampleLane, input_frames: usize)
    requires
        call_ensures(ResampleLane::resampler_ready, (lane, input_frames), ()),
    ensures
        final(lane).next_input_frames == Some(input_frames),
        final(lane).raw == old(lane).raw,
        final(lane).resampled == old(lane).resampled,
{
}

/// Up to three million frames per second, the latency is three twentieths of the rate, rounded
/// down.
pub proof fn law_latency_in_frames(sample_rate: u32, frames: u32)
    requires
        sample_rate <= 3_000_000,
        call_ensures(latency_frame_count, (sample_rate,), frames),
    ensures
        20 * frames <= 3 * sample_rate < 20 * (frames + 1),
{
    law_latency_is_150_milliseconds(sample_rate as nat);
}

/// Up to three million frames per second, the latency in samples is three twentieths of the rate,
/// rounded down, times the channels, unless that is none or too many for a ring buffer.
pub proof fn law_latency_in_samples(config: DeviceConfig, samples: Option<usize>)
    requires
        config.sample_rate <= 3_000_000,
        call_ensures(latency_sample_count, (config,), samples),
    ensures
        ({
            let latency = (3 * config.sample_rate / 20) * config.channels;
            &&& samples is Some <==> 1 <= latency && 8 * latency <= isize::MAX
            &&& samples matches Some(n) ==> n == latency
        }),
{
    law_latency_in_samples_is_150_milliseconds(config);
}

/// A recording without a resampler starts with 150 milliseconds of silence of every input channel,
/// in a ring buffer of twice as many places.
pub proof fn law_direct_session_starts_with_silence(
    recorder: &Recorder,
    input: DeviceConfig,
    output: DeviceConfig,
    session: Result<DirectSession, AudioRecorderError>,
)
    requires
        input.sample_rate <= 3_000_000,
        call_ensures(Recorder::without_resampler, (recorder, Some(input), Some(output)), session),
    ensures
        ({
            let latency = (3 * input.sample_rate / 20) * input.channels;
            &&& session is Ok
            &&& ring_capacity(session->Ok_0.ring) == 2 * latency
            &&& ring_contents(session->Ok_0.ring).len() == latency
            &&& forall|i: int|
                0 <= i < latency ==> #[trigger] ring_contents(session->Ok_0.ring)[i] == 0
            &&& session->Ok_0.input_channels == input.channels
            &&& session->Ok_0.output_channels == output.channels
        }),
{
    law_latency_in_samples_is_150_milliseconds(input);
}

/// Without a resampler, output samples wait behind those that were there, as far as there are
/// places, and the others are counted.
pub proof fn law_direct_session_takes_output<U: CustomSample>(
    session: &mut DirectSession,
    mono: &[U],
    dropped: usize,
)
    requires
        old(session).wf(),
        call_ensures(DirectSession::write_output_data::<U>, (session, mono), dropped),
    ensures
        ({
            let before = ring_contents(old(session).ring);
            let after = ring_contents(final(session).ring);
            let capacity = ring_capacity(old(session).ring);
            &&& after.len() + dropped == before.len() + mono@.len()
            &&& after.len() <= capacity
            &&& dropped > 0 ==> after.len() == capacity
            &&& after.take(before.len() as int) == before
            &&& forall|i: int|
                before.len() <= i < after.len() ==> #[trigger] after[i] == mono@[i
                    - before.len()].target()
            &&& ring_capacity(final(session).ring) == capacity
            &&& final(session).input_channels == old(session).input_channels
            &&& final(session).output_channels == old(session).output_channels
        }),
{
    let before = ring_contents(old(session).ring);
    assert(ring_contents(final(session).ring).take(before.len() as int) =~= before);
}

/// Without a resampler, each input sample comes out followed by the output sample that waited
/// longest, or by silence; output samples that were not used stay.
pub proof fn law_direct_session_pairs_input_with_output<T: CustomSample>(
    session: &mut DirectSession,
    mono: &[T],
    parsed: Vec<TargetFormat>,
)
    requires
        call_ensures(DirectSession::write_input_data::<T>, (session, mono), parsed),
    ensures
        ({
            let before = ring_contents(old(session).ring);
            let after = ring_contents(final(session).ring);
            let n = mono@.len();
            &&& parsed@.len() == 2 * n
            &&& forall|i: int|
                0 <= i < n ==> {
                    &&& parsed@[2 * i] == (#[trigger] mono@[i]).target()
                    &&& parsed@[2 * i + 1] == if i < before.len() { before[i] } else { 0 }
                }
            &&& n <= before.len() ==> after == before.skip(n as int)
            &&& n > before.len() ==> after.len() == 0
            &&& ring_capacity(final(session).ring) == ring_capacity(old(session).ring)
            &&& final(session).input_channels == old(session).input_channels
            &&& final(session).output_channels == old(session).output_channels
        }),
{
    let before = ring_contents(old(session).ring);
    let n = mono@.len() as int;
    assert forall|i: int| 0 <= i < n implies {
        &&& parsed@[2 * i] == (#[trigger] mono@[i]).target()
        &&& parsed@[2 * i + 1] == if i < before.len() { before[i] } else { 0 }
    } by {
        assert((2 * i) / 2 == i && (2 * i) % 2 == 0);
        assert((2 * i + 1) / 2 == i && (2 * i + 1) % 2 == 1);
    }
}

/// Two channels of one length come out in alternation, the first one first.
pub proof fn law_interleaving_alternates(
    first: &Vec<TargetFormat>,
    second: &Vec<TargetFormat>,
    data: Vec<TargetFormat>,
)
    requires
        first@.len() == second@.len(),
        call_ensures(interleave, (first, second), data),
    ensures
        data@.len() == 2 * first@.len(),
        forall|i: int|
            0 <= i < first@.len() ==> data@[2 * i] == #[trigger] first@[i] && data@[2 * i + 1]
                == second@[i],
{
}

/// With one resampler, samples go to the raw ring buffer of the lane if their stream is resampled,
/// and else to the direct one, behind those that wait there, as far as there are places.
pub proof fn law_session_with_one_resampler_takes_input<T: CustomSample>(
    session: &mut OneResamplerSession,
    mono: &[T],
    dropped: usize,
)
    requires
        old(session).wf(),
        call_ensures(OneResamplerSession::write_input_data::<T>, (session, mono), dropped),
    ensures
        ({
            let (before, after) = if old(session).resamples_input {
                (ring_contents(old(session).lane.raw), ring_contents(final(session).lane.raw))
            } else {
                (ring_contents(old(session).direct), ring_contents(final(session).direct))
            };
            &&& old(session).resamples_input ==> ring_contents(final(session).direct)
                == ring_contents(old(session).direct)
            &&& !old(session).resamples_input ==> ring_contents(final(session).lane.raw)
                == ring_contents(old(session).lane.raw)
            &&& after.len() + dropped == before.len() + mono@.len()
            &&& after.len() <= 88200
            &&& dropped > 0 ==> after.len() == 88200
            &&& after.take(before.len() as int) == before
            &&& forall|i: int|
                before.len() <= i < after.len() ==> #[trigger] after[i] == mono@[i
                    - before.len()].target()
            &&& final(session).lane.resampled == old(session).lane.resampled
            &&& final(session).lane.next_input_frames == old(session).lane.next_input_frames
            &&& final(session).resamples_input == old(session).resamples_input
            &&& final(session).target_rate == old(session).target_rate
        }),
{
    let (before, after) = if old(session).resamples_input {
        (ring_contents(old(session).lane.raw), ring_contents(final(session).lane.raw))
    } else {
        (ring_contents(old(session).direct), ring_contents(final(session).direct))
    };
    assert(after.take(before.len() as int) =~= before);
}

/// The same of the samples of the output device.
pub proof fn law_session_with_one_resampler_takes_output<U: CustomSample>(
    session: &mut OneResamplerSession,
    mono: &[U],
    dropped: usize,
)
    requires
        old(session).wf(),
        call_ensures(OneResamplerSession::write_output_data::<U>, (session, mono), dropped),
    ensures
        ({
            let (before, after) = if old(session).resamples_input {
                (ring_contents(old(session).direct), ring_contents(final(session).direct))
            } else {
                (ring_contents(old(session).lane.raw), ring_contents(final(session).lane.raw))
            };
            &&& old(session).resamples_input ==> ring_contents(final(session).lane.raw)
                == ring_contents(old(session).lane.raw)
            &&& !old(session).resamples_input ==> ring_contents(final(session).direct)
                == ring_contents(old(session).direct)
            &&& after.len() + dropped == before.len() + mono@.len()
            &&& after.len() <= 88200
            &&& dropped > 0 ==> after.len() == 88200
            &&& after.take(before.len() as int) == before
            &&& forall|i: int|
                before.len() <= i < after.len() ==> #[trigger] after[i] == mono@[i
                    - before.len()].target()
            &&& final(session).lane.resampled == old(session).lane.resampled
            &&& final(session).lane.next_input_frames == old(session).lane.next_input_frames
            &&& final(session).resamples_input == old(session).resamples_input
            &&& final(session).target_rate == old(session).target_rate
        }),
{
    let (before, after) = if old(session).resamples_input {
        (ring_contents(old(session).direct), ring_contents(final(session).direct))
    } else {
        (ring_contents(old(session).lane.raw), ring_contents(final(session).lane.raw))
    };
    assert(after.take(before.len() as int) =~= before);
}

/// With one resampler a block is mixed exactly if either stream has a second of samples. It holds
/// the eldest second of both in alternation, the input first, with silence for what is missing.
pub proof fn law_blocks_of_a_session_with_one_resampler(
    session: &mut OneResamplerSession,
    block: Option<Vec<TargetFormat>>,
)
    requires
        call_ensures(OneResamplerSession::next_block, (session,), block),
    ensures
        ({
            let rate = old(session).target_rate as int;
            let resampled = ring_contents(old(session).lane.resampled);
            let direct = ring_contents(old(session).direct);
            let (input, output) = if old(session).resamples_input {
                (resampled, direct)
            } else {
                (direct, resampled)
            };
            &&& block is Some <==> resampled.len() >= rate || direct.len() >= rate
            &&& block matches Some(data) ==> {
                &&& data@.len() == 2 * rate
                &&& forall|i: int|
                    0 <= i < rate ==> #[trigger] data@[2 * i] == if i < input.len() {
                        input[i]
                    } else {
                        0
                    }
                &&& forall|i: int|
                    0 <= i < rate ==> #[trigger] data@[2 * i + 1] == if i < output.len() {
                        output[i]
                    } else {
                        0
                    }
                &&& resampled.len() >= rate ==> ring_contents(final(session).lane.resampled)
                    == resampled.skip(rate)
                &&& resampled.len() < rate ==> ring_contents(final(session).lane.resampled).len()
                    == 0
                &&& direct.len() >= rate ==> ring_contents(final(session).direct) == direct.skip(
                    rate,
                )
                &&& direct.len() < rate ==> ring_contents(final(session).direct).len() == 0
            }
            &&& block is None ==> *final(session) == *old(session)
            &&& final(session).lane.raw == old(session).lane.raw
            &&& final(session).resamples_input == old(session).resamples_input
            &&& final(session).target_rate == old(session).target_rate
        }),
{
}

/// With two resamplers a block is mixed exactly if both streams have a second of samples. Where one
/// channel was fixed it holds the eldest second of each stream by itself, and else both in
/// alternation, the input first.
pub proof fn law_blocks_of_a_session_with_two_resamplers(
    session: &mut BothResamplersSession,
    block: Option<MixedBlock>,
)
    requires
        call_ensures(BothResamplersSession::next_block, (session,), block),
    ensures
        ({
            let rate = old(session).target_rate as int;
            let input = ring_contents(old(session).input.resampled);
            let output = ring_contents(old(session).output.resampled);
            &&& block is Some <==> input.len() >= rate && output.len() >= rate
            &&& block matches Some(mixed) ==> {
                &&& mixed is Averaged <==> old(session).channels == Some(1u16)
                &&& mixed matches MixedBlock::Averaged { input: a, output: b } ==> {
                    &&& a@ == input.take(rate)
                    &&& b@ == output.take(rate)
                }
                &&& mixed matches MixedBlock::Interleaved(data) ==> {
                    &&& data@.len() == 2 * rate
                    &&& forall|i: int| 0 <= i < rate ==> #[trigger] data@[2 * i] == input[i]
                    &&& forall|i: int| 0 <= i < rate ==> #[trigger] data@[2 * i + 1] == output[i]
                }
                &&& ring_contents(final(session).input.resampled) == input.skip(rate)
                &&& ring_contents(final(session).output.resampled) == output.skip(rate)
            }
            &&& block is None ==> *final(session) == *old(session)
            &&& final(session).input.raw == old(session).input.raw
            &&& final(session).output.raw == old(session).output.raw
        }),
{
}

/// A recording with one resampler starts empty, and resamples the stream that it was set up for,
/// from the rate to the rate asked for. The channels are those of the devices.
pub proof fn law_sessions_with_one_resampler_start_empty(
    recorder: &Recorder,
    input: DeviceConfig,
    output: DeviceConfig,
    target_rate: usize,
    origin_rate: usize,
    of_input: Result<OneResamplerSession, AudioRecorderError>,
    of_output: Result<OneResamplerSession, AudioRecorderError>,
)
    requires
        call_ensures(
            Recorder::with_input_resampler,
            (recorder, Some(input), Some(output), target_rate, origin_rate),
            of_input,
        ),
        call_ensures(
            Recorder::with_output_resampler,
            (recorder, Some(input), Some(output), target_rate, origin_rate),
            of_output,
        ),
    ensures
        of_input is Ok && of_input->Ok_0.resamples_input,
        of_output is Ok && !of_output->Ok_0.resamples_input,
        forall|session: OneResamplerSession|
            session == of_input->Ok_0 || session == of_output->Ok_0 ==> {
                &&& #[trigger] session.wf()
                &&& ring_contents(session.direct).len() == 0
                &&& ring_contents(session.lane.raw).len() == 0
                &&& ring_contents(session.lane.resampled).len() == 0
                &&& ring_capacity(session.direct) == 88200
                &&& ring_capacity(session.lane.raw) == 88200
                &&& ring_capacity(session.lane.resampled) == 88200
                &&& session.lane.next_input_frames is None
                &&& session.target_rate == target_rate
                &&& session.origin_rate == origin_rate
                &&& session.input_channels == input.channels
                &&& session.output_channels == output.channels
            },
{
}

/// A recording with two resamplers starts empty, and resamples each stream from its own rate to
/// the target rate. It has the channels that the recorder fixed.
pub proof fn law_session_with_two_resamplers_starts_empty(
    recorder: &Recorder,
    input: DeviceConfig,
    output: DeviceConfig,
    target_rate: usize,
    input_rate: usize,
    output_rate: usize,
    session: Result<BothResamplersSession, AudioRecorderError>,
)
    requires
        call_ensures(
            Recorder::with_both_resampler,
            (recorder, Some(input), Some(output), target_rate, input_rate, output_rate),
            session,
        ),
    ensures
        session is Ok,
        session->Ok_0.wf(),
        ring_contents(session->Ok_0.input.raw).len() == 0,
        ring_contents(session->Ok_0.input.resampled).len() == 0,
        ring_contents(session->Ok_0.output.raw).len() == 0,
        ring_contents(session->Ok_0.output.resampled).len() == 0,
        session->Ok_0.input.next_input_frames is None,
        session->Ok_0.output.next_input_frames is None,
        session->Ok_0.target_rate == target_rate,
        session->Ok_0.input_origin_rate == input_rate,
        session->Ok_0.output_origin_rate == output_rate,
        session->Ok_0.channels == recorder@.channels,
        session->Ok_0.input_channels == input.channels,
        session->Ok_0.output_channels == output.channels,
{
}

/// To start hands on what was asked for, marks the recording as running and forgets what was
/// fixed, unless a recording is running: then it is refused and nothing changes.
pub proof fn law_start(
    recorder: &mut Recorder,
    input_only: bool,
    sample_rate: Option<u32>,
    channels: Option<u16>,
    sample_size: Option<u32>,
    request: Result<StartRequest, AudioRecorderError>,
)
    requires
        call_ensures(
            Recorder::start,
            (recorder, input_only, sample_rate, channels, sample_size),
            request,
        ),
    ensures
        request is Ok <==> !old(recorder)@.recording,
        request is Err ==> {
            &&& request->Err_0 is RecordingInProgress
            &&& final(recorder)@ == old(recorder)@
        },
        request matches Ok(asked) ==> {
            &&& asked.input_only == input_only
            &&& asked.sample_rate == sample_rate
            &&& asked.channels == channels
            &&& asked.sample_size == sample_size
            &&& final(recorder)@.recording
            &&& final(recorder)@.target_sample_rate is None
            &&& final(recorder)@.channels is None
            &&& final(recorder)@.sample_size is None
        },
{
}

/// To stop ends the recording and keeps what was fixed.
pub proof fn law_stopping_keeps_what_was_fixed(recorder: &mut Recorder)
    requires
        call_ensures(Recorder::stop, (recorder,), ()),
    ensures
        !final(recorder)@.recording,
        final(recorder)@.target_sample_rate == old(recorder)@.target_sample_rate,
        final(recorder)@.channels == old(recorder)@.channels,
        final(recorder)@.sample_size == old(recorder)@.sample_size,
{
}

/// A recorder tells whether it records, and its configuration once all of it is fixed.
pub proof fn law_recorder_tells_its_state(
    recorder: &Recorder,
    recording: bool,
    config: Result<RecorderConfig, AudioRecorderError>,
)
    requires
        call_ensures(Recorder::get_is_recording, (recorder,), recording),
        call_ensures(Recorder::get_config, (recorder,), config),
    ensures
        recording == recorder@.recording,
        config is Ok <==> {
            &&& recorder@.target_sample_rate is Some
            &&& recorder@.channels is Some
            &&& recorder@.sample_size is Some
        },
        config matches Ok(fixed) ==> {
            &&& recorder@.target_sample_rate == Some(fixed.sample_rate)
            &&& recorder@.channels == Some(fixed.channels)
            &&& recorder@.sample_size == Some(fixed.sample_size)
        },
        config is Err ==> config->Err_0 is NotConfigured,
{
}

/// Two devices fix the rate, the channels and the sample size where they are open, and each stream
/// is resampled exactly if its rate is not the rate fixed, from its own rate to that one.
pub proof fn law_recording_two_devices(
    recorder: &mut Recorder,
    input: DeviceConfig,
    output: DeviceConfig,
    plan: Result<RecordingPlan, AudioRecorderError>,
)
    requires
        call_ensures(Recorder::record_multiple, (recorder, Some(input), Some(output)), plan),
    ensures
        plan is Ok,
        final(recorder)@.recording == old(recorder)@.recording,
        old(recorder)@.target_sample_rate is Some ==> final(recorder)@.target_sample_rate
            == old(recorder)@.target_sample_rate,
        old(recorder)@.target_sample_rate is None ==> final(recorder)@.target_sample_rate == Some(
            if input.sample_rate <= output.sample_rate {
                input.sample_rate
            } else {
                output.sample_rate
            },
        ),
        old(recorder)@.channels is Some ==> final(recorder)@.channels == old(recorder)@.channels,
        old(recorder)@.channels is None ==> final(recorder)@.channels == Some(2u16),
        old(recorder)@.sample_size is Some ==> final(recorder)@.sample_size
            == old(recorder)@.sample_size,
        old(recorder)@.sample_size is None ==> final(recorder)@.sample_size == Some(
            input.sample_format.size() as u32,
        ),
        ({
            let target = final(recorder)@.target_sample_rate->Some_0;
            match plan->Ok_0 {
                RecordingPlan::WithoutResampler => {
                    &&& input.sample_rate == target
                    &&& output.sample_rate == target
                },
                RecordingPlan::WithInputResampler { target_rate, origin_rate } => {
                    &&& input.sample_rate != target
                    &&& output.sample_rate == target
                    &&& target_rate == target
                    &&& origin_rate == input.sample_rate
                },
                RecordingPlan::WithOutputResampler { target_rate, origin_rate } => {
                    &&& input.sample_rate == target
                    &&& output.sample_rate != target
                    &&& target_rate == target
                    &&& origin_rate == output.sample_rate
                },
                RecordingPlan::WithBothResampler {
                    target_rate,
                    input_origin_rate,
                    output_origin_rate,
                } => {
                    &&& input.sample_rate != target
                    &&& output.sample_rate != target
                    &&& target_rate == target
                    &&& input_origin_rate == input.sample_rate
                    &&& output_origin_rate == output.sample_rate
                },
            }
        }),
{
}

/// One device fixes the rate that it has, and channels and sample size as asked for, or else as it
/// has them; its stream is built as it told. A stream that does not run ends the recording.
pub proof fn law_recording_one_device(
    recorder: &mut Recorder,
    later: &mut Recorder,
    config: DeviceConfig,
    is_input: bool,
    sample_rate: Option<u32>,
    channels: Option<u16>,
    sample_size: Option<u32>,
    stream: Result<DeviceConfig, AudioRecorderError>,
    outcome: StreamOutcome,
    running: Result<(), &'static str>,
)
    requires
        call_ensures(
            Recorder::record_single_device,
            (recorder, Some(config), is_input, sample_rate, channels, sample_size),
            stream,
        ),
        *old(later) == *final(recorder),
        call_ensures(Recorder::single_stream_opened, (later, is_input, outcome), running),
    ensures
        stream == Ok::<DeviceConfig, AudioRecorderError>(config),
        final(recorder)@.recording == old(recorder)@.recording,
        final(recorder)@.target_sample_rate == Some(config.sample_rate),
        final(recorder)@.channels == Some(
            match channels {
                Some(asked) => asked,
                None => config.channels,
            },
        ),
        final(recorder)@.sample_size == Some(
            match sample_size {
                Some(asked) => asked,
                None => config.sample_format.size() as u32,
            },
        ),
        running is Ok <==> outcome is Playing,
        final(later)@.recording == (old(recorder)@.recording && outcome is Playing),
        final(later)@.target_sample_rate == final(recorder)@.target_sample_rate,
        final(later)@.channels == final(recorder)@.channels,
        final(later)@.sample_size == final(recorder)@.sample_size,
{
}

/// Two devices are recorded in their own formats, unless one of these is of 24 bits or a one-bit
/// stream.
pub proof fn law_formats_of_two_devices(
    recorder: &Recorder,
    input: DeviceConfig,
    output: DeviceConfig,
    formats: Result<(SampleFormat, SampleFormat), AudioRecorderError>,
)
    requires
        call_ensures(Recorder::sample_formats, (recorder, Some(input), Some(output)), formats),
    ensures
        formats is Err <==> {
            let a = input.sample_format;
            let b = output.sample_format;
            ||| a is I24 || a is U24 || a is DsdU8 || a is DsdU16 || a is DsdU32
            ||| b is I24 || b is U24 || b is DsdU8 || b is DsdU16 || b is DsdU32
        },
        formats matches Ok((a, b)) ==> a == input.sample_format && b == output.sample_format,
        formats is Err ==> formats->Err_0 is SignalError,
{
}

} // verus!
