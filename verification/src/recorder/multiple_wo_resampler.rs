//! Recording from two devices that run at one rate.

use super::constants::{targets, CustomSample, TargetFormat, EQUILIBRIUM};
use super::device::{both_configs, DeviceConfig};
use super::errors::AudioRecorderError;
use super::record_single_device::StreamOutcome;
use super::ring::{
    fitted, interleaved, max_ring_capacity, overflow, padded, rest, ring_capacity, ring_contents,
    silence, SampleRing,
};
use super::single_precision::{latency_frame_count, latency_frames, lemma_latency_bound};
use super::Recorder;
use vstd::prelude::*;

verus! {

/// The samples of silence that the output lags behind: the latency of all channels of the input.
pub open spec fn latency_samples(config: DeviceConfig) -> nat {
    latency_frames(config.sample_rate as nat) * config.channels as nat
}

/// There is some latency, and a ring buffer of twice its length can be had.
pub open spec fn latency_fits(config: DeviceConfig) -> bool {
    0 < 2 * latency_samples(config) <= max_ring_capacity()
}

/// The samples of latency of an input configuration, or `None` if no ring buffer can hold twice
/// as many.
pub fn latency_sample_count(config: DeviceConfig) -> (samples: Option<usize>)
    ensures
        samples is Some <==> latency_fits(config),
        samples matches Some(n) ==> n == latency_samples(config),
{
    let frames: u32 = latency_frame_count(config.sample_rate);
    proof {
        lemma_latency_bound(config.sample_rate);
        assert(frames * config.channels <= 0x4000_0000 * 0x1_0000) by (nonlinear_arith)
            requires
                frames <= 0x4000_0000,
                config.channels <= 0x1_0000,
        ;
    }
    let samples: u64 = frames as u64 * config.channels as u64;
    let limit: u64 = isize::MAX as u64 / 4;
    if 0 < samples && 2 * samples <= limit {
        Some(samples as usize)
    } else {
        None
    }
}

/// A recording from two devices of one rate. The output samples wait in a ring buffer until an
/// input sample comes that they are paired with.
pub struct DirectSession {
    /// The output samples that wait.
    pub ring: SampleRing,
    /// The channels of the input device.
    pub input_channels: u16,
    /// The channels of the output device.
    pub output_channels: u16,
}

impl DirectSession {
    /// The ring buffer is sound.
    pub open spec fn wf(self) -> bool {
        self.ring.wf()
    }

    /// Takes down-mixed samples of the output device. Those that find the ring buffer full are
    /// dropped, and counted.
    pub fn write_output_data<U: CustomSample>(&mut self, mono: &[U]) -> (dropped: usize)
        requires
            old(self).wf(),
        ensures
            final(self).wf(),
            final(self).input_channels == old(self).input_channels,
            final(self).output_channels == old(self).output_channels,
            ring_capacity(final(self).ring) == ring_capacity(old(self).ring),
            ring_contents(final(self).ring) == fitted(
                ring_contents(old(self).ring),
                ring_capacity(old(self).ring),
                targets(mono@),
            ),
            dropped == overflow(
                ring_contents(old(self).ring),
                ring_capacity(old(self).ring),
                targets(mono@),
            ),
    {
        self.ring.push_samples(mono)
    }

    /// Takes down-mixed samples of the input device and pairs each with the output sample that
    /// has waited longest, or with silence. Returns the pairs, the input first.
    pub fn write_input_data<T: CustomSample>(&mut self, mono: &[T]) -> (parsed: Vec<TargetFormat>)
        requires
            old(self).wf(),
        ensures
            final(self).wf(),
            final(self).input_channels == old(self).input_channels,
            final(self).output_channels == old(self).output_channels,
            ring_capacity(final(self).ring) == ring_capacity(old(self).ring),
            ring_contents(final(self).ring) == rest(ring_contents(old(self).ring), mono@.len()),
            parsed@ == interleaved(
                targets(mono@),
                padded(ring_contents(old(self).ring), mono@.len()),
            ),
    {
        let ghost before = ring_contents(self.ring);
        let ghost pairs = interleaved(targets(mono@), padded(before, mono@.len()));
        let mut parsed: Vec<TargetFormat> = Vec::new();
        let mut i: usize = 0;
        assert(rest(before, 0) =~= before);
        while i < mono.len()
            invariant
                i <= mono@.len(),
                self.wf(),
                self.input_channels == old(self).input_channels,
                self.output_channels == old(self).output_channels,
                ring_capacity(self.ring) == ring_capacity(old(self).ring),
                ring_contents(self.ring) == rest(before, i as nat),
                pairs == interleaved(targets(mono@), padded(before, mono@.len())),
                parsed@.len() == 2 * i,
                forall|j: int| 0 <= j < 2 * i ==> parsed@[j] == #[trigger] pairs[j],
            decreases mono@.len() - i,
        {
            parsed.push(mono[i].to_target());
            match self.ring.try_pop() {
                Some(sample) => parsed.push(sample),
                None => parsed.push(EQUILIBRIUM),
            }
            i = i + 1;
            assert(ring_contents(self.ring) =~= rest(before, i as nat));
        }
        assert(parsed@ =~= pairs);
        parsed
    }

    /// Takes the outcome of opening the streams of both devices, and says whether the session goes
    /// on. Streams that do not run end it; the recorder is not told.
    pub fn stream_opened(&self, outcome: StreamOutcome) -> (go_on: bool)
        ensures
            go_on <==> outcome is Playing,
    {
        match outcome {
            StreamOutcome::Playing => true,
            StreamOutcome::PlayFailed => false,
            StreamOutcome::BuildFailed => false,
        }
    }
}

impl Recorder {
    /// Sets up a recording from two devices that run at one rate. The ring buffer holds twice the
    /// latency of the input, and starts with one latency of silence. A device that does not tell
    /// its configuration gives `None`.
    pub fn without_resampler(
        &self,
        input_config: Option<DeviceConfig>,
        output_config: Option<DeviceConfig>,
    ) -> (session: Result<DirectSession, AudioRecorderError>)
        requires
            input_config is Some && output_config is Some ==> latency_fits(input_config->Some_0),
        ensures
            input_config is None ==> {
                &&& session is Err
                &&& session->Err_0.is_device_error("Failed to get input config"@)
            },
            input_config is Some && output_config is None ==> {
                &&& session is Err
                &&& session->Err_0.is_device_error("Failed to get output config"@)
            },
            (input_config, output_config) matches (Some(input), Some(output)) ==> {
                &&& session is Ok
                &&& session->Ok_0.wf()
                &&& session->Ok_0.input_channels == input.channels
                &&& session->Ok_0.output_channels == output.channels
                &&& ring_capacity(session->Ok_0.ring) == 2 * latency_samples(input)
                &&& ring_contents(session->Ok_0.ring) == silence(latency_samples(input))
            },
    {
        let (input, output): (DeviceConfig, DeviceConfig) = match both_configs(
            input_config,
            output_config,
        ) {
            Ok(configs) => configs,
            Err(error) => return Err(error),
        };
        let latency: usize = latency_sample_count(input).unwrap();
        let mut ring: SampleRing = SampleRing::with_capacity(latency * 2);
        let mut i: usize = 0;
        while i < latency
            invariant
                i <= latency,
                ring.wf(),
                ring_capacity(ring) == 2 * latency,
                ring_contents(ring) == silence(i as nat),
            decreases latency - i,
        {
            // The ring buffer has twice as much space as the latency needs, so no sample is
            // refused here.
            let pushed: Result<(), TargetFormat> = ring.try_push(EQUILIBRIUM);
            assert(pushed is Ok);
            i = i + 1;
            assert(ring_contents(ring) =~= silence(i as nat));
        }
        Ok(
            DirectSession {
                ring,
                input_channels: input.channels,
                output_channels: output.channels,
            },
        )
    }
}

} // verus!
