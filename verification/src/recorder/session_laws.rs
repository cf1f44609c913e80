//! Laws of the sessions: how much latency there is, when a chunk or a block is ready, and which ring
//! buffer holds what.

use super::constants::{
    targets, CustomSample, CLOCK_DELAY, RESAMPLER_BUFFER_SIZE, RESAMPLER_CHANNELS,
    RESAMPLER_CHUNK_SIZE, RESAMPLER_INPUT_CHUNK, RESAMPLER_SLEEP_DELAY, RESAMPLER_SUB_CHUNKS,
};
use super::device::DeviceConfig;
use super::multiple_w_resampler::{
    session_ring, BothResamplersSession, OneResamplerSession, ResampleLane,
};
use super::multiple_wo_resampler::{latency_fits, latency_samples, DirectSession};
use super::ring::{
    fitted, lesser, overflow, padded, rest, ring_capacity, ring_contents, silence,
    SampleRing,
};
use super::single_precision::{latency_frames, law_latency_is_150_milliseconds};
use vstd::prelude::*;

verus! {

/// Up to three million frames per second, the latency in samples is 150 milliseconds of every
/// channel of the input: three twentieths of the rate, rounded down, times the channels.
pub proof fn law_latency_in_samples_is_150_milliseconds(config: DeviceConfig)
    requires
        config.sample_rate <= 3_000_000,
    ensures
        latency_samples(config) == (3 * config.sample_rate / 20) * config.channels,
{
    law_latency_is_150_milliseconds(config.sample_rate as nat);
}

/// At every rate, each channel of the input has the same latency, and the format of the samples
/// has no influence.
pub proof fn law_every_channel_has_the_latency(config: DeviceConfig)
    ensures
        latency_samples(config) == latency_frames(config.sample_rate as nat) * config.channels,
{
}

/// A session can be had exactly if there is some latency and the storage of twice as many samples,
/// of four bytes each, can be addressed.
pub proof fn law_latency_fits_the_address_space(config: DeviceConfig)
    ensures
        latency_fits(config) <==> {
            &&& latency_samples(config) >= 1
            &&& 4 * (2 * latency_samples(config)) <= isize::MAX
        },
{
}

/// Below three million frames per second and for at most 100 channels, a rate of seven frames or
/// more and at least one channel are enough for a session.
pub proof fn law_ordinary_devices_have_a_session(config: DeviceConfig)
    requires
        7 <= config.sample_rate <= 3_000_000,
        1 <= config.channels <= 100,
    ensures
        latency_fits(config),
{
    law_latency_in_samples_is_150_milliseconds(config);
    let frames = 3 * config.sample_rate / 20;
    assert(1 <= frames <= 450_000);
    assert(1 <= frames * config.channels <= 45_000_000) by (nonlinear_arith)
        requires
            1 <= frames <= 450_000,
            1 <= config.channels <= 100,
    ;
}

/// Silence is as long as was asked for, and all zero.
pub proof fn law_silence_is_zero(n: nat)
    ensures
        silence(n).len() == n,
        forall|i: int| 0 <= i < n ==> #[trigger] silence(n)[i] == 0,
{
}

/// The lesser of two lengths is one of them, and above neither.
pub proof fn law_lesser_is_the_minimum(a: int, b: int)
    ensures
        lesser(a, b) <= a,
        lesser(a, b) <= b,
        lesser(a, b) == a || lesser(a, b) == b,
{
}

/// What is written goes behind what was there, sample by sample, until the ring buffer is full;
/// what finds it full is counted.
pub proof fn law_written_samples_queue_up(contents: Seq<u32>, capacity: nat, data: Seq<u32>)
    requires
        contents.len() <= capacity,
    ensures
        ({
            let after = fitted(contents, capacity, data);
            let wanted = contents.len() + data.len();
            &&& after.len() == if wanted <= capacity { wanted } else { capacity }
            &&& forall|i: int| 0 <= i < contents.len() ==> #[trigger] after[i] == contents[i]
            &&& forall|i: int|
                contents.len() <= i < after.len() ==> #[trigger] after[i] == data[i
                    - contents.len()]
            &&& overflow(contents, capacity, data) == wanted - after.len()
        }),
{
}

/// What is read is what was there, the eldest first, and zero once nothing is there; what was not
/// read stays.
pub proof fn law_read_samples_are_the_eldest(contents: Seq<u32>, n: nat)
    ensures
        padded(contents, n).len() == n,
        forall|i: int|
            0 <= i < n ==> #[trigger] padded(contents, n)[i] == if i < contents.len() {
                contents[i]
            } else {
                0
            },
        n >= contents.len() ==> rest(contents, n).len() == 0,
        n < contents.len() ==> {
            &&& rest(contents, n).len() == contents.len() - n
            &&& forall|i: int|
                0 <= i < contents.len() - n ==> #[trigger] rest(contents, n)[i] == contents[i + n]
        },
{
}

/// A sound ring buffer has places, storage that can be addressed, and no more samples than places;
/// that is all that is asked of it.
pub proof fn law_sound_ring(ring: SampleRing)
    ensures
        ring.wf() <==> {
            &&& ring_contents(ring).len() <= ring_capacity(ring)
            &&& 0 < ring_capacity(ring)
            &&& ring_capacity(ring) <= isize::MAX / 4
        },
{
}

/// Every ring buffer of a resampling session holds two seconds at 44100 samples a second, and a
/// resampler is asked for chunks of 1024 samples of one channel in two parts. Its loops turn every
/// ten milliseconds; whether the recording goes on is looked at every 400.
pub proof fn law_sizes_and_delays(ring: SampleRing)
    ensures
        session_ring(ring) <==> ring.wf() && ring_capacity(ring) == 2 * 44100,
        RESAMPLER_BUFFER_SIZE == 2 * RESAMPLER_CHUNK_SIZE,
        RESAMPLER_CHUNK_SIZE == 44100,
        RESAMPLER_INPUT_CHUNK == 1024,
        RESAMPLER_SUB_CHUNKS == 2,
        RESAMPLER_CHANNELS == 1,
        RESAMPLER_SLEEP_DELAY == 10,
        CLOCK_DELAY == 400,
{
}

/// A lane hands out a chunk exactly if there is a resampler and as many raw samples wait as it
/// takes next, however many these are.
pub proof fn law_chunk_is_ready_once_enough_samples_wait(lane: ResampleLane)
    ensures
        lane.next_input_frames is None ==> !lane.chunk_ready(),
        forall|n: usize|
            lane.next_input_frames == Some(n) ==> (lane.chunk_ready() <==> ring_contents(
                lane.raw,
            ).len() >= n),
{
}

/// To write as many samples into a lane as its resampler takes next makes a chunk ready, as long
/// as a ring buffer holds that many.
pub proof fn law_enough_samples_make_a_chunk<T: CustomSample>(
    before: ResampleLane,
    after: ResampleLane,
    n: usize,
    mono: Seq<T>,
)
    requires
        before.wf(),
        n <= 88200,
        after.next_input_frames == Some(n),
        ring_contents(before.raw).len() + mono.len() >= n,
        ring_contents(after.raw) == fitted(ring_contents(before.raw), 88200, targets(mono)),
    ensures
        after.chunk_ready(),
{
}

/// A lane is sound exactly if both of its ring buffers hold two seconds at 44100 samples a second,
/// and it is empty exactly if nothing waits in either and there is no resampler.
pub proof fn law_lane(lane: ResampleLane)
    ensures
        lane.wf() <==> {
            &&& lane.raw.wf() && ring_capacity(lane.raw) == 88200
            &&& lane.resampled.wf() && ring_capacity(lane.resampled) == 88200
        },
        lane.empty() <==> {
            &&& ring_contents(lane.raw).len() == 0
            &&& ring_contents(lane.resampled).len() == 0
            &&& lane.next_input_frames is None
        },
{
    assert(ring_contents(lane.raw).len() == 0 ==> ring_contents(lane.raw) =~= Seq::empty());
    assert(ring_contents(lane.resampled).len() == 0 ==> ring_contents(lane.resampled)
        =~= Seq::empty());
}

/// In a session that resamples the input, input samples go to the lane and come out of it, and
/// output samples wait in the direct ring buffer from the start. In one that resamples the output
/// it is the other way round.
pub proof fn law_streams_of_a_session_with_one_resampler(session: OneResamplerSession)
    ensures
        session.resamples_input ==> {
            &&& session.incoming_input() == ring_contents(session.lane.raw)
            &&& session.ready_input() == ring_contents(session.lane.resampled)
            &&& session.incoming_output() == ring_contents(session.direct)
            &&& session.ready_output() == ring_contents(session.direct)
        },
        !session.resamples_input ==> {
            &&& session.incoming_output() == ring_contents(session.lane.raw)
            &&& session.ready_output() == ring_contents(session.lane.resampled)
            &&& session.incoming_input() == ring_contents(session.direct)
            &&& session.ready_input() == ring_contents(session.direct)
        },
        session.wf() <==> session.lane.wf() && session.direct.wf() && ring_capacity(session.direct)
            == 88200,
        session.empty() <==> session.lane.empty() && ring_contents(session.direct).len() == 0,
{
    assert(ring_contents(session.direct).len() == 0 ==> ring_contents(session.direct)
        =~= Seq::empty());
}

/// With one resampler a block is ready exactly if either stream has a second of samples.
pub proof fn law_block_is_ready_once_one_stream_has_a_second(session: OneResamplerSession)
    ensures
        session.block_ready() <==> {
            ||| ring_contents(session.lane.resampled).len() >= session.target_rate
            ||| ring_contents(session.direct).len() >= session.target_rate
        },
{
}

/// With two resamplers a block is ready exactly if both streams have a second of samples.
pub proof fn law_block_is_ready_once_both_streams_have_a_second(session: BothResamplersSession)
    ensures
        session.block_ready() <==> {
            &&& ring_contents(session.input.resampled).len() >= session.target_rate
            &&& ring_contents(session.output.resampled).len() >= session.target_rate
        },
        session.wf() <==> session.input.wf() && session.output.wf(),
{
}

/// What is fixed for a session is everything but the samples that wait and the frames that the
/// resamplers take next.
pub proof fn law_setup_of_a_session(
    a: OneResamplerSession,
    b: OneResamplerSession,
    c: BothResamplersSession,
    d: BothResamplersSession,
)
    ensures
        a.same_setup(b) <==> {
            &&& (a.resamples_input, a.target_rate, a.origin_rate) == (
                b.resamples_input,
                b.target_rate,
                b.origin_rate,
            )
            &&& (a.input_channels, a.output_channels) == (b.input_channels, b.output_channels)
        },
        c.same_setup(d) <==> {
            &&& (c.target_rate, c.input_origin_rate, c.output_origin_rate) == (
                d.target_rate,
                d.input_origin_rate,
                d.output_origin_rate,
            )
            &&& (c.channels, c.input_channels, c.output_channels) == (
                d.channels,
                d.input_channels,
                d.output_channels,
            )
        },
{
}

/// A session without a resampler is sound exactly if its ring buffer is.
pub proof fn law_sound_direct_session(session: DirectSession)
    ensures
        session.wf() <==> session.ring.wf(),
{
}

} // verus!
