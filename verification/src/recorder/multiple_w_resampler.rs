//! Recording from two devices of which at least one is resampled.
//!
//! A resampled stream runs through a lane: its samples wait in a raw ring buffer until the
//! resampler can take a whole chunk, and what the resampler makes of it waits in a second ring
//! buffer until it is mixed with the other stream.

use super::constants::{
    targets, CustomSample, TargetFormat, RESAMPLER_BUFFER_SIZE, RESAMPLER_CHUNK_SIZE,
};
use super::device::{both_configs, DeviceConfig};
use super::errors::AudioRecorderError;
use super::record_single_device::StreamOutcome;
use super::ring::{
    fitted, interleave, interleaved, overflow, padded, rest, ring_capacity, ring_contents,
    SampleRing,
};
use super::Recorder;
use vstd::prelude::*;

verus! {

/// A ring buffer of the capacity that resampling sessions use.
pub open spec fn session_ring(ring: SampleRing) -> bool {
    ring.wf() && ring_capacity(ring) == RESAMPLER_BUFFER_SIZE
}

/// A new ring buffer of a resampling session: it holds two chunks.
fn new_session_ring() -> (ring: SampleRing)
    ensures
        session_ring(ring),
        ring_contents(ring) == Seq::<u32>::empty(),
{
    SampleRing::with_capacity(RESAMPLER_CHUNK_SIZE * 2)
}

/// A stream on its way through a resampler.
pub struct ResampleLane {
    /// Samples at the rate of the device.
    pub raw: SampleRing,
    /// Samples at the target rate.
    pub resampled: SampleRing,
    /// The frames that the resampler takes next, once there is a resampler.
    pub next_input_frames: Option<usize>,
}

impl ResampleLane {
    /// Both ring buffers are sound.
    pub open spec fn wf(self) -> bool {
        session_ring(self.raw) && session_ring(self.resampled)
    }

    /// Nothing has come in, and there is no resampler yet.
    pub open spec fn empty(self) -> bool {
        &&& ring_contents(self.raw) == Seq::<u32>::empty()
        &&& ring_contents(self.resampled) == Seq::<u32>::empty()
        &&& self.next_input_frames is None
    }

    /// The resampler can take a chunk.
    pub open spec fn chunk_ready(self) -> bool {
        self.next_input_frames matches Some(frames) && ring_contents(self.raw).len() >= frames
    }

    fn new() -> (lane: ResampleLane)
        ensures
            lane.wf(),
            lane.empty(),
    {
        ResampleLane {
            raw: new_session_ring(),
            resampled: new_session_ring(),
            next_input_frames: None,
        }
    }

    /// Takes down-mixed samples of the device. Those that find the raw ring buffer full are
    /// dropped, and counted.
    pub fn write_data<T: CustomSample>(&mut self, mono: &[T]) -> (dropped: usize)
        requires
            old(self).wf(),
        ensures
            final(self).wf(),
            final(self).resampled == old(self).resampled,
            final(self).next_input_frames == old(self).next_input_frames,
            ring_contents(final(self).raw) == fitted(
                ring_contents(old(self).raw),
                RESAMPLER_BUFFER_SIZE as nat,
                targets(mono@),
            ),
            dropped == overflow(
                ring_contents(old(self).raw),
                RESAMPLER_BUFFER_SIZE as nat,
                targets(mono@),
            ),
    {
        self.raw.push_samples(mono)
    }

    /// There is a resampler, and it takes `input_frames` next.
    pub fn resampler_ready(&mut self, input_frames: usize)
        requires
            old(self).wf(),
        ensures
            final(self).wf(),
            final(self).raw == old(self).raw,
            final(self).resampled == old(self).resampled,
            final(self).next_input_frames == Some(input_frames),
    {
        self.next_input_frames = Some(input_frames);
    }

    /// The next chunk for the resampler, if a whole one is there. Its outcome is to be reported
    /// to [`ResampleLane::chunk_resampled`].
    pub fn next_chunk(&mut self) -> (chunk: Option<Vec<TargetFormat>>)
        requires
            old(self).wf(),
        ensures
            final(self).wf(),
            final(self).resampled == old(self).resampled,
            final(self).next_input_frames == old(self).next_input_frames,
            chunk is Some <==> old(self).chunk_ready(),
            chunk matches Some(samples) ==> {
                let frames = old(self).next_input_frames->Some_0 as int;
                &&& samples@ == ring_contents(old(self).raw).take(frames)
                &&& ring_contents(final(self).raw) == ring_contents(old(self).raw).skip(frames)
            },
            chunk is None ==> final(self).raw == old(self).raw,
    {
        match self.next_input_frames {
            None => None,
            Some(frames) => if self.raw.occupied_len() >= frames {
                let samples: Vec<TargetFormat> = self.raw.pop_padded(frames);
                assert(samples@ =~= ring_contents(old(self).raw).take(frames as int));
                Some(samples)
            } else {
                None
            },
        }
    }

    /// Takes what the resampler made of a chunk: its output, of which as much is kept as fits,
    /// and the frames that it takes next. A chunk that the resampler failed on, `None`, is lost.
    pub fn chunk_resampled(&mut self, outcome: Option<(&[TargetFormat], usize)>)
        requires
            old(self).wf(),
        ensures
            final(self).wf(),
            final(self).raw == old(self).raw,
            outcome matches Some((output, input_frames)) ==> {
                &&& final(self).next_input_frames == Some(input_frames)
                &&& ring_contents(final(self).resampled) == fitted(
                    ring_contents(old(self).resampled),
                    RESAMPLER_BUFFER_SIZE as nat,
                    output@,
                )
            },
            outcome is None ==> *final(self) == *old(self),
    {
        match outcome {
            None => {},
            Some((output, input_frames)) => {
                self.next_input_frames = Some(input_frames);
                let _count: usize = self.resampled.push_slice(output);
            },
        }
    }
}

/// A recording of which one stream is resampled and the other is not.
pub struct OneResamplerSession {
    /// The stream that is resampled.
    pub lane: ResampleLane,
    /// The samples of the other stream.
    pub direct: SampleRing,
    /// The resampled stream is that of the input device.
    pub resamples_input: bool,
    /// The rate of the recording, and the samples of a block.
    pub target_rate: usize,
    /// The rate of the device whose stream is resampled.
    pub origin_rate: usize,
    /// The channels of the input device.
    pub input_channels: u16,
    /// The channels of the output device.
    pub output_channels: u16,
}

impl OneResamplerSession {
    /// The ring buffers are sound.
    pub open spec fn wf(self) -> bool {
        self.lane.wf() && session_ring(self.direct)
    }

    /// Nothing has come in.
    pub open spec fn empty(self) -> bool {
        self.lane.empty() && ring_contents(self.direct) == Seq::<u32>::empty()
    }

    /// The input samples at the target rate.
    pub open spec fn ready_input(self) -> Seq<u32> {
        if self.resamples_input {
            ring_contents(self.lane.resampled)
        } else {
            ring_contents(self.direct)
        }
    }

    /// The output samples at the target rate.
    pub open spec fn ready_output(self) -> Seq<u32> {
        if self.resamples_input {
            ring_contents(self.direct)
        } else {
            ring_contents(self.lane.resampled)
        }
    }

    /// A block can be mixed as soon as one of the streams has a second of samples.
    pub open spec fn block_ready(self) -> bool {
        self.ready_output().len() >= self.target_rate || self.ready_input().len()
            >= self.target_rate
    }

    /// What is fixed for the whole session.
    pub open spec fn same_setup(self, other: OneResamplerSession) -> bool {
        &&& self.resamples_input == other.resamples_input
        &&& self.target_rate == other.target_rate
        &&& self.origin_rate == other.origin_rate
        &&& self.input_channels == other.input_channels
        &&& self.output_channels == other.output_channels
    }

    /// The samples that wait in the ring buffer that samples of the input device go to.
    pub open spec fn incoming_input(self) -> Seq<u32> {
        if self.resamples_input {
            ring_contents(self.lane.raw)
        } else {
            ring_contents(self.direct)
        }
    }

    /// The samples that wait in the ring buffer that samples of the output device go to.
    pub open spec fn incoming_output(self) -> Seq<u32> {
        if self.resamples_input {
            ring_contents(self.direct)
        } else {
            ring_contents(self.lane.raw)
        }
    }

    /// Takes down-mixed samples of the input device. Those that find the ring buffer full are
    /// dropped, and counted.
    pub fn write_input_data<T: CustomSample>(&mut self, mono: &[T]) -> (dropped: usize)
        requires
            old(self).wf(),
        ensures
            final(self).wf(),
            final(self).same_setup(*old(self)),
            final(self).incoming_input() == fitted(
                old(self).incoming_input(),
                RESAMPLER_BUFFER_SIZE as nat,
                targets(mono@),
            ),
            final(self).incoming_output() == old(self).incoming_output(),
            final(self).lane.resampled == old(self).lane.resampled,
            final(self).lane.next_input_frames == old(self).lane.next_input_frames,
            dropped == overflow(
                old(self).incoming_input(),
                RESAMPLER_BUFFER_SIZE as nat,
                targets(mono@),
            ),
    {
        if self.resamples_input {
            self.lane.write_data(mono)
        } else {
            self.direct.push_samples(mono)
        }
    }

    /// Takes down-mixed samples of the output device. Those that find the ring buffer full are
    /// dropped, and counted.
    pub fn write_output_data<U: CustomSample>(&mut self, mono: &[U]) -> (dropped: usize)
        requires
            old(self).wf(),
        ensures
            final(self).wf(),
            final(self).same_setup(*old(self)),
            final(self).incoming_output() == fitted(
                old(self).incoming_output(),
                RESAMPLER_BUFFER_SIZE as nat,
                targets(mono@),
            ),
            final(self).incoming_input() == old(self).incoming_input(),
            final(self).lane.resampled == old(self).lane.resampled,
            final(self).lane.next_input_frames == old(self).lane.next_input_frames,
            dropped == overflow(
                old(self).incoming_output(),
                RESAMPLER_BUFFER_SIZE as nat,
                targets(mono@),
            ),
    {
        if self.resamples_input {
            self.direct.push_samples(mono)
        } else {
            self.lane.write_data(mono)
        }
    }

    /// Mixes the next block, a second of both streams in alternation, the input first, if one of
    /// the streams has a second of samples. A stream that has less is filled up with silence.
    pub fn next_block(&mut self) -> (block: Option<Vec<TargetFormat>>)
        requires
            old(self).wf(),
        ensures
            final(self).wf(),
            final(self).same_setup(*old(self)),
            final(self).lane.raw == old(self).lane.raw,
            final(self).lane.next_input_frames == old(self).lane.next_input_frames,
            block is Some <==> old(self).block_ready(),
            block matches Some(data) ==> {
                let rate = old(self).target_rate as nat;
                &&& data@ == interleaved(
                    padded(old(self).ready_input(), rate),
                    padded(old(self).ready_output(), rate),
                )
                &&& final(self).ready_input() == rest(old(self).ready_input(), rate)
                &&& final(self).ready_output() == rest(old(self).ready_output(), rate)
            },
            block is None ==> *final(self) == *old(self),
    {
        let target_rate: usize = self.target_rate;
        if !(self.lane.resampled.occupied_len() >= target_rate || self.direct.occupied_len()
            >= target_rate) {
            return None;
        }
        let resampled: Vec<TargetFormat> = self.lane.resampled.pop_padded(target_rate);
        let direct: Vec<TargetFormat> = self.direct.pop_padded(target_rate);
        if self.resamples_input {
            Some(interleave(&resampled, &direct))
        } else {
            Some(interleave(&direct, &resampled))
        }
    }

    /// Takes the outcome of opening the streams of both devices, and says whether the session goes
    /// on. Streams that do not run end it; the recorder is not told.
    pub fn stream_opened(&self, outcome: StreamOutcome) -> (go_on: bool)
        ensures
            go_on <==> outcome is Playing,
    {
        match outcome {
            StreamOutcome::Playing => true,
            StreamOutcome::PlayFailed => false,
            StreamOutcome::BuildFailed => false,
        }
    }

    /// Takes whether a block could be sent, and says whether the session goes on: it does in
    /// either case, and a block that nobody takes is lost.
    pub fn block_sent(&self, sent: bool) -> (go_on: bool)
        ensures
            go_on,
    {
        true
    }
}

/// What is recorded of a second of both streams.
#[derive(Debug)]
pub enum MixedBlock {
    /// Both streams in alternation, the input first.
    Interleaved(Vec<TargetFormat>),
    /// One channel is wanted: each pair of samples is to be averaged.
    Averaged { input: Vec<TargetFormat>, output: Vec<TargetFormat> },
}

/// A recording of which both streams are resampled.
pub struct BothResamplersSession {
    /// The stream of the input device.
    pub input: ResampleLane,
    /// The stream of the output device.
    pub output: ResampleLane,
    /// The rate of the recording, and the samples of a block.
    pub target_rate: usize,
    /// The rate of the input device.
    pub input_origin_rate: usize,
    /// The rate of the output device.
    pub output_origin_rate: usize,
    /// The channels of the recording, if they were fixed.
    pub channels: Option<u16>,
    /// The channels of the input device.
    pub input_channels: u16,
    /// The channels of the output device.
    pub output_channels: u16,
}

impl BothResamplersSession {
    /// The ring buffers are sound.
    pub open spec fn wf(self) -> bool {
        self.input.wf() && self.output.wf()
    }

    /// A block can be mixed once both streams have a second of samples.
    pub open spec fn block_ready(self) -> bool {
        &&& ring_contents(self.input.resampled).len() >= self.target_rate
        &&& ring_contents(self.output.resampled).len() >= self.target_rate
    }

    /// What is fixed for the whole session.
    pub open spec fn same_setup(self, other: BothResamplersSession) -> bool {
        &&& self.target_rate == other.target_rate
        &&& self.input_origin_rate == other.input_origin_rate
        &&& self.output_origin_rate == other.output_origin_rate
        &&& self.channels == other.channels
        &&& self.input_channels == other.input_channels
        &&& self.output_channels == other.output_channels
    }

    /// Mixes the next block, a second of both streams, if both have one. With one channel the
    /// streams are handed out side by side, to be averaged; else they are interleaved.
    pub fn next_block(&mut self) -> (block: Option<MixedBlock>)
        requires
            old(self).wf(),
        ensures
            final(self).wf(),
            final(self).same_setup(*old(self)),
            final(self).input.raw == old(self).input.raw,
            final(self).input.next_input_frames == old(self).input.next_input_frames,
            final(self).output.raw == old(self).output.raw,
            final(self).output.next_input_frames == old(self).output.next_input_frames,
            block is Some <==> old(self).block_ready(),
            block matches Some(mixed) ==> {
                let rate = old(self).target_rate as int;
                let input = ring_contents(old(self).input.resampled);
                let output = ring_contents(old(self).output.resampled);
                &&& if old(self).channels == Some(1u16) {
                    &&& mixed is Averaged
                    &&& mixed->input@ == input.take(rate)
                    &&& mixed->output@ == output.take(rate)
                } else {
                    &&& mixed is Interleaved
                    &&& mixed->Interleaved_0@ == interleaved(input.take(rate), output.take(rate))
                }
                &&& ring_contents(final(self).input.resampled) == input.skip(rate)
                &&& ring_contents(final(self).output.resampled) == output.skip(rate)
            },
            block is None ==> *final(self) == *old(self),
    {
        let target_rate: usize = self.target_rate;
        let input_len: usize = self.input.resampled.occupied_len();
        let output_len: usize = self.output.resampled.occupied_len();
        if input_len < target_rate || output_len < target_rate {
            return None;
        }
        let input: Vec<TargetFormat> = self.input.resampled.pop_padded(target_rate);
        let output: Vec<TargetFormat> = self.output.resampled.pop_padded(target_rate);
        proof {
            let rate = target_rate as int;
            assert(input@ =~= ring_contents(old(self).input.resampled).take(rate));
            assert(output@ =~= ring_contents(old(self).output.resampled).take(rate));
        }
        let channels: u16 = match self.channels {
            Some(channels) => channels,
            None => 2,
        };
        if channels == 1 {
            Some(MixedBlock::Averaged { input, output })
        } else {
            Some(MixedBlock::Interleaved(interleave(&input, &output)))
        }
    }

    /// Takes whether a block could be sent, and says whether the session goes on: it ends once
    /// nobody takes its blocks.
    pub fn block_sent(&self, sent: bool) -> (go_on: bool)
        ensures
            go_on == sent,
    {
        sent
    }
}

impl Recorder {
    /// Sets up a recording of which the input stream is resampled, from the rate of its device to
    /// the target rate. A device that does not tell its configuration gives `None`.
    pub fn with_input_resampler(
        &self,
        input_config: Option<DeviceConfig>,
        output_config: Option<DeviceConfig>,
        target_rate: usize,
        origin_rate: usize,
    ) -> (session: Result<OneResamplerSession, AudioRecorderError>)
        ensures
            input_config is None ==> {
                &&& session is Err
                &&& session->Err_0.is_device_error("Failed to get input config"@)
            },
            input_config is Some && output_config is None ==> {
                &&& session is Err
                &&& session->Err_0.is_device_error("Failed to get output config"@)
            },
            (input_config, output_config) matches (Some(input), Some(output)) ==> {
                &&& session is Ok
                &&& session->Ok_0.wf()
                &&& session->Ok_0.empty()
                &&& session->Ok_0.resamples_input
                &&& session->Ok_0.target_rate == target_rate
                &&& session->Ok_0.origin_rate == origin_rate
                &&& session->Ok_0.input_channels == input.channels
                &&& session->Ok_0.output_channels == output.channels
            },
    {
        let (input, output): (DeviceConfig, DeviceConfig) = match both_configs(
            input_config,
            output_config,
        ) {
            Ok(configs) => configs,
            Err(error) => return Err(error),
        };
        Ok(
            OneResamplerSession {
                lane: ResampleLane::new(),
                direct: new_session_ring(),
                resamples_input: true,
                target_rate,
                origin_rate,
                input_channels: input.channels,
                output_channels: output.channels,
            },
        )
    }

    /// Sets up a recording of which the output stream is resampled, from the rate of its device
    /// to the target rate. A device that does not tell its configuration gives `None`.
    pub fn with_output_resampler(
        &self,
        input_config: Option<DeviceConfig>,
        output_config: Option<DeviceConfig>,
        target_rate: usize,
        origin_rate: usize,
    ) -> (session: Result<OneResamplerSession, AudioRecorderError>)
        ensures
            input_config is None ==> {
                &&& session is Err
                &&& session->Err_0.is_device_error("Failed to get input config"@)
            },
            input_config is Some && output_config is None ==> {
                &&& session is Err
                &&& session->Err_0.is_device_error("Failed to get output config"@)
            },
            (input_config, output_config) matches (Some(input), Some(output)) ==> {
                &&& session is Ok
                &&& session->Ok_0.wf()
                &&& session->Ok_0.empty()
                &&& !session->Ok_0.resamples_input
                &&& session->Ok_0.target_rate == target_rate
                &&& session->Ok_0.origin_rate == origin_rate
                &&& session->Ok_0.input_channels == input.channels
                &&& session->Ok_0.output_channels == output.channels
            },
    {
        let (input, output): (DeviceConfig, DeviceConfig) = match both_configs(
            input_config,
            output_config,
        ) {
            Ok(configs) => configs,
            Err(error) => return Err(error),
        };
        Ok(
            OneResamplerSession {
                lane: ResampleLane::new(),
                direct: new_session_ring(),
                resamples_input: false,
                target_rate,
                origin_rate,
                input_channels: input.channels,
                output_channels: output.channels,
            },
        )
    }

    /// Sets up a recording of which both streams are resampled, each from the rate of its device
    /// to the target rate. A device that does not tell its configuration gives `None`.
    pub fn with_both_resampler(
        &self,
        input_config: Option<DeviceConfig>,
        output_config: Option<DeviceConfig>,
        target_rate: usize,
        input_origin_rate: usize,
        output_origin_rate: usize,
    ) -> (session: Result<BothResamplersSession, AudioRecorderError>)
        ensures
            input_config is None ==> {
                &&& session is Err
                &&& session->Err_0.is_device_error("Failed to get input config"@)
            },
            input_config is Some && output_config is None ==> {
                &&& session is Err
                &&& session->Err_0.is_device_error("Failed to get output config"@)
            },
            (input_config, output_config) matches (Some(input), Some(output)) ==> {
                &&& session is Ok
                &&& session->Ok_0.wf()
                &&& session->Ok_0.input.empty()
                &&& session->Ok_0.output.empty()
                &&& session->Ok_0.target_rate == target_rate
                &&& session->Ok_0.input_origin_rate == input_origin_rate
                &&& session->Ok_0.output_origin_rate == output_origin_rate
                &&& session->Ok_0.channels == self@.channels
                &&& session->Ok_0.input_channels == input.channels
                &&& session->Ok_0.output_channels == output.channels
            },
    {
        let (input, output): (DeviceConfig, DeviceConfig) = match both_configs(
            input_config,
            output_config,
        ) {
            Ok(configs) => configs,
            Err(error) => return Err(error),
        };
        Ok(
            BothResamplersSession {
                input: ResampleLane::new(),
                output: ResampleLane::new(),
                target_rate,
                input_origin_rate,
                output_origin_rate,
                channels: self.channels,
                input_channels: input.channels,
                output_channels: output.channels,
            },
        )
    }
}

} // verus!
