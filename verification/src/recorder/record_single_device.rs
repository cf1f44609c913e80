//! Recording from a single device.

use super::constants::{targets, CustomSample, TargetFormat};
use super::device::DeviceConfig;
use super::errors::AudioRecorderError;
use super::{Recorder, RecorderState};
use vstd::prelude::*;

verus! {

/// How far opening came: of the stream of a single device, or of the streams of two devices, where
/// the first failure counts.
#[derive(Debug, Clone, Copy, PartialEq, Eq, Structural)]
pub enum StreamOutcome {
    /// A stream could not be built, or its sample format is not supported.
    BuildFailed,
    /// A stream was built and did not start.
    PlayFailed,
    /// Every stream is running.
    Playing,
}

impl RecorderState {
    /// The state once a single device has told its configuration. The rate is that of the device;
    /// channels and sample size are those asked for, or else those of the device.
    pub open spec fn with_single(
        self,
        config: DeviceConfig,
        channels: Option<u16>,
        sample_size: Option<u32>,
    ) -> RecorderState {
        RecorderState {
            recording: self.recording,
            target_sample_rate: Some(config.sample_rate),
            channels: Some(
                match channels {
                    Some(asked) => asked,
                    None => config.channels,
                },
            ),
            sample_size: Some(
                match sample_size {
                    Some(asked) => asked,
                    None => config.sample_format.size() as u32,
                },
            ),
        }
    }
}

impl Recorder {
    /// Fixes the configuration of a recording from one device, and gives back the configuration
    /// that its stream is to be built with.
    ///
    /// `config` is the default configuration of the device, as input or as output by `is_input`,
    /// or `None` if the device does not tell it. The stream runs at the rate of the device, so
    /// the rate asked for has no influence.
    pub fn record_single_device(
        &mut self,
        config: Option<DeviceConfig>,
        is_input: bool,
        sample_rate: Option<u32>,
        channels: Option<u16>,
        sample_size: Option<u32>,
    ) -> (stream: Result<DeviceConfig, AudioRecorderError>)
        ensures
            config matches Some(told) ==> {
                &&& stream == Ok::<DeviceConfig, AudioRecorderError>(told)
                &&& final(self)@ == old(self)@.with_single(told, channels, sample_size)
            },
            config is None ==> {
                &&& stream is Err
                &&& stream->Err_0.is_device_error(
                    if is_input {
                        "Failed to get default input config"@
                    } else {
                        "Failed to get default output config"@
                    },
                )
                &&& final(self)@ == old(self)@
            },
    {
        let told: DeviceConfig = match config {
            Some(told) => told,
            None => {
                if is_input {
                    return Err(
                        AudioRecorderError::DeviceError("Failed to get default input config"),
                    );
                }
                return Err(AudioRecorderError::DeviceError("Failed to get default output config"));
            },
        };
        let asked_channels: u16 = match channels {
            Some(asked) => asked,
            None => told.channels,
        };
        let asked_size: u32 = match sample_size {
            Some(asked) => asked,
            None => told.sample_format.sample_size(),
        };
        self.target_sample_rate = Some(told.sample_rate);
        self.channels = Some(asked_channels);
        self.sample_size = Some(asked_size);
        Ok(told)
    }

    /// Takes the outcome of opening the stream of a single device. A stream that does not run
    /// ends the recording.
    pub fn single_stream_opened(&mut self, is_input: bool, outcome: StreamOutcome) -> (running:
        Result<(), &'static str>)
        ensures
            outcome is Playing ==> running is Ok && final(self)@ == old(self)@,
            outcome !is Playing ==> {
                &&& running is Err
                &&& running->Err_0@ == match outcome {
                    StreamOutcome::PlayFailed => "Failed to play stream"@,
                    _ => if is_input {
                        "Failed to build input stream"@
                    } else {
                        "Failed to build output stream"@
                    },
                }
                &&& final(self)@ == old(self)@.stopped()
            },
    {
        match outcome {
            StreamOutcome::Playing => Ok(()),
            StreamOutcome::PlayFailed => {
                self.recording_signal = false;
                Err("Failed to play stream")
            },
            StreamOutcome::BuildFailed => {
                self.recording_signal = false;
                if is_input {
                    Err("Failed to build input stream")
                } else {
                    Err("Failed to build output stream")
                }
            },
        }
    }
}

/// Converts what the stream of a single device delivered, sample by sample.
pub fn parse_samples<T: CustomSample>(data: &[T]) -> (parsed: Vec<TargetFormat>)
    ensures
        parsed@ == targets(data@),
{
    let mut parsed: Vec<TargetFormat> = Vec::new();
    let mut i: usize = 0;
    while i < data.len()
        invariant
            i <= data@.len(),
            parsed@ == targets(data@).take(i as int),
        decreases data@.len() - i,
    {
        parsed.push(data[i].to_target());
        i = i + 1;
        assert(parsed@ =~= targets(data@).take(i as int));
    }
    assert(parsed@ =~= targets(data@));
    parsed
}

} // verus!
