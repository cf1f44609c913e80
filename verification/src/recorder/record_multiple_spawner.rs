//! Recording from the input and the output device together.

use super::constants::ResampleTargetStream;
use super::device::{both_configs, DeviceConfig};
use super::errors::AudioRecorderError;
use super::{Recorder, RecorderState};
use vstd::prelude::*;

verus! {

/// The session that a recording from two devices is to be run as.
#[derive(Debug, Clone, Copy, PartialEq, Eq, Structural)]
pub enum RecordingPlan {
    /// By [`Recorder::without_resampler`].
    WithoutResampler,
    /// By [`Recorder::with_input_resampler`].
    WithInputResampler { target_rate: usize, origin_rate: usize },
    /// By [`Recorder::with_output_resampler`].
    WithOutputResampler { target_rate: usize, origin_rate: usize },
    /// By [`Recorder::with_both_resampler`].
    WithBothResampler {
        target_rate: usize,
        input_origin_rate: usize,
        output_origin_rate: usize,
    },
}

/// The lower of two rates.
pub open spec fn lower_rate(a: u32, b: u32) -> u32 {
    if a <= b {
        a
    } else {
        b
    }
}

/// Which streams do not run at the target rate.
pub open spec fn resample_target(target: u32, input: u32, output: u32) -> ResampleTargetStream {
    if target == input && target == output {
        ResampleTargetStream::Neither
    } else if target == input {
        ResampleTargetStream::Output
    } else if target == output {
        ResampleTargetStream::Input
    } else {
        ResampleTargetStream::Both
    }
}

/// The session for the streams that do not run at the target rate.
pub open spec fn plan_for(target: u32, input: u32, output: u32) -> RecordingPlan {
    match resample_target(target, input, output) {
        ResampleTargetStream::Neither => RecordingPlan::WithoutResampler,
        ResampleTargetStream::Output => RecordingPlan::WithOutputResampler {
            target_rate: target as usize,
            origin_rate: output as usize,
        },
        ResampleTargetStream::Input => RecordingPlan::WithInputResampler {
            target_rate: target as usize,
            origin_rate: input as usize,
        },
        ResampleTargetStream::Both => RecordingPlan::WithBothResampler {
            target_rate: target as usize,
            input_origin_rate: input as usize,
            output_origin_rate: output as usize,
        },
    }
}

impl RecorderState {
    /// The state once two devices have told their configurations. What is fixed stays; else the
    /// rate is the lower of the two, there are two channels, and the sample size is that of the
    /// input.
    pub open spec fn with_multiple(self, input: DeviceConfig, output: DeviceConfig) -> RecorderState {
        RecorderState {
            recording: self.recording,
            target_sample_rate: Some(
                match self.target_sample_rate {
                    Some(rate) => rate,
                    None => lower_rate(input.sample_rate, output.sample_rate),
                },
            ),
            channels: Some(
                match self.channels {
                    Some(channels) => channels,
                    None => 2,
                },
            ),
            sample_size: Some(
                match self.sample_size {
                    Some(size) => size,
                    None => input.sample_format.size() as u32,
                },
            ),
        }
    }
}

/// Decides which streams are resampled.
fn choose_resample_target(target: usize, input: usize, output: usize) -> (choice:
    ResampleTargetStream)
    requires
        target <= u32::MAX,
        input <= u32::MAX,
        output <= u32::MAX,
    ensures
        choice == resample_target(target as u32, input as u32, output as u32),
{
    if target == input && target == output {
        ResampleTargetStream::Neither
    } else if target == input {
        ResampleTargetStream::Output
    } else if target == output {
        ResampleTargetStream::Input
    } else {
        ResampleTargetStream::Both
    }
}

impl Recorder {
    /// Fixes the configuration of a recording from two devices, and decides which streams are
    /// resampled. A device that does not tell its configuration gives `None`.
    pub fn record_multiple(
        &mut self,
        input_config: Option<DeviceConfig>,
        output_config: Option<DeviceConfig>,
    ) -> (plan: Result<RecordingPlan, AudioRecorderError>)
        ensures
            input_config is None ==> {
                &&& plan is Err
                &&& plan->Err_0.is_device_error("Failed to get input config"@)
                &&& final(self)@ == old(self)@
            },
            input_config is Some && output_config is None ==> {
                &&& plan is Err
                &&& plan->Err_0.is_device_error("Failed to get output config"@)
                &&& final(self)@ == old(self)@
            },
            (input_config, output_config) matches (Some(input), Some(output)) ==> {
                &&& final(self)@ == old(self)@.with_multiple(input, output)
                &&& plan == Ok::<RecordingPlan, AudioRecorderError>(
                    plan_for(
                        final(self)@.target_sample_rate->Some_0,
                        input.sample_rate,
                        output.sample_rate,
                    ),
                )
            },
    {
        let (input, output): (DeviceConfig, DeviceConfig) = match both_configs(
            input_config,
            output_config,
        ) {
            Ok(configs) => configs,
            Err(error) => return Err(error),
        };
        let input_sample_rate: usize = input.sample_rate as usize;
        let output_sample_rate: usize = output.sample_rate as usize;
        let target: u32 = match self.target_sample_rate {
            Some(rate) => rate,
            None => if input.sample_rate <= output.sample_rate {
                input.sample_rate
            } else {
                output.sample_rate
            },
        };
        self.target_sample_rate = Some(target);
        if self.channels.is_none() {
            self.channels = Some(2);
        }
        if self.sample_size.is_none() {
            self.sample_size = Some(input.sample_format.sample_size());
        }
        let target_rate: usize = target as usize;
        let plan: RecordingPlan = match choose_resample_target(
            target_rate,
            input_sample_rate,
            output_sample_rate,
        ) {
            ResampleTargetStream::Neither => RecordingPlan::WithoutResampler,
            ResampleTargetStream::Output => RecordingPlan::WithOutputResampler {
                target_rate,
                origin_rate: output_sample_rate,
            },
            ResampleTargetStream::Input => RecordingPlan::WithInputResampler {
                target_rate,
                origin_rate: input_sample_rate,
            },
            ResampleTargetStream::Both => RecordingPlan::WithBothResampler {
                target_rate,
                input_origin_rate: input_sample_rate,
                output_origin_rate: output_sample_rate,
            },
        };
        Ok(plan)
    }
}

} // verus!
