//! The recorder: its state, and how a recording starts and stops.
//!
//! Opening devices, running streams and waiting is the business of the caller. Each method here
//! takes what a device answered, decides, and says what comes next. Where threads share a
//! recorder, they share it under a lock.

use vstd::prelude::*;

pub mod constants;
pub mod device;
pub mod errors;
pub mod laws;
pub mod multiple_w_resampler;
pub mod multiple_wo_resampler;
pub mod operation_laws;
pub mod record_multiple_spawner;
pub mod record_single_device;
pub mod ring;
pub mod sample_laws;
pub mod session_laws;
pub mod single_precision;
pub mod stream_resampler;
pub mod walk;

use device::{both_configs, DeviceConfig, SampleFormat};
use errors::AudioRecorderError;

verus! {

/// A recorder for recording audio - It should be consumed using a singleton pattern
#[derive(Debug)]
pub struct Recorder {
    /// recording signal
    recording_signal: bool,
    /// The target sample rate for recording.
    target_sample_rate: Option<u32>,
    /// The number of channels for recording.
    channels: Option<u16>,
    /// The sample size for recording.
    sample_size: Option<u32>,
}

/// The state of a recorder.
pub struct RecorderState {
    /// A recording is running, or is being started.
    pub recording: bool,
    /// The target sample rate, once it is fixed.
    pub target_sample_rate: Option<u32>,
    /// The number of channels, once it is fixed.
    pub channels: Option<u16>,
    /// The bytes per sample, once they are fixed.
    pub sample_size: Option<u32>,
}

/// The configuration of a recording.
#[derive(Debug, Clone, Copy, PartialEq, Eq, Structural)]
pub struct RecorderConfig {
    /// Frames per second.
    pub sample_rate: u32,
    /// Samples per frame.
    pub channels: u16,
    /// Bytes per sample.
    pub sample_size: u32,
}

/// What a recording was asked to be.
#[derive(Debug, Clone, Copy, PartialEq, Eq, Structural)]
pub struct StartRequest {
    /// Record the input device alone.
    pub input_only: bool,
    /// The sample rate asked for.
    pub sample_rate: Option<u32>,
    /// The number of channels asked for.
    pub channels: Option<u16>,
    /// The sample size asked for.
    pub sample_size: Option<u32>,
}

/// What follows once the input device is open.
#[derive(Debug, Clone, Copy, PartialEq, Eq, Structural)]
pub enum AfterInput {
    /// Record the input device alone, by [`Recorder::record_single_device`].
    RecordSingle(StartRequest),
    /// Open the output device, and report to [`Recorder::output_device_opened`].
    OpenOutput,
}

impl RecorderState {
    /// The state of a new recorder.
    pub open spec fn fresh() -> RecorderState {
        RecorderState {
            recording: false,
            target_sample_rate: None,
            channels: None,
            sample_size: None,
        }
    }

    /// The state once a recording has been asked for and nothing is known of its devices.
    pub open spec fn begun() -> RecorderState {
        RecorderState {
            recording: true,
            target_sample_rate: None,
            channels: None,
            sample_size: None,
        }
    }

    /// The state after the recorder has been stopped: the configuration stays.
    pub open spec fn stopped(self) -> RecorderState {
        RecorderState { recording: false, ..self }
    }

    /// The configuration, once all of it is fixed.
    pub open spec fn config(self) -> Option<RecorderConfig> {
        if self.target_sample_rate is Some && self.channels is Some && self.sample_size is Some {
            Some(
                RecorderConfig {
                    sample_rate: self.target_sample_rate->Some_0,
                    channels: self.channels->Some_0,
                    sample_size: self.sample_size->Some_0,
                },
            )
        } else {
            None
        }
    }
}

impl View for Recorder {
    type V = RecorderState;

    closed spec fn view(&self) -> RecorderState {
        RecorderState {
            recording: self.recording_signal,
            target_sample_rate: self.target_sample_rate,
            channels: self.channels,
            sample_size: self.sample_size,
        }
    }
}

impl Recorder {
    /// Creates a new instance of the Recorder.
    pub fn new() -> (recorder: Self)
        ensures
            recorder@ == RecorderState::fresh(),
    {
        Recorder {
            recording_signal: false,
            target_sample_rate: None,
            channels: None,
            sample_size: None,
        }
    }

    /// Ends the recording, if there is one. The configuration can still be asked for.
    pub fn stop(&mut self)
        ensures
            final(self)@ == old(self)@.stopped(),
    {
        if !self.recording_signal {
            return ;
        }
        self.recording_signal = false;
    }

    /// Whether a recording is in progress.
    pub fn get_is_recording(&self) -> (recording: bool)
        ensures
            recording == self@.recording,
    {
        self.recording_signal
    }

    /// The configuration of the recording, once its devices have fixed it.
    pub fn get_config(&self) -> (config: Result<RecorderConfig, AudioRecorderError>)
        ensures
            self@.config() matches Some(fixed) ==> config == Ok::<
                RecorderConfig,
                AudioRecorderError,
            >(fixed),
            self@.config() is None ==> config == Err::<RecorderConfig, AudioRecorderError>(
                AudioRecorderError::NotConfigured,
            ),
    {
        match (self.target_sample_rate, self.channels, self.sample_size) {
            (Some(sample_rate), Some(channels), Some(sample_size)) => Ok(
                RecorderConfig { sample_rate, channels, sample_size },
            ),
            _ => Err(AudioRecorderError::NotConfigured),
        }
    }

    /// Asks for a recording. The input device is to be opened next, and the outcome reported to
    /// [`Recorder::input_device_opened`].
    pub fn start(
        &mut self,
        input_only: bool,
        sample_rate: Option<u32>,
        channels: Option<u16>,
        sample_size: Option<u32>,
    ) -> (request: Result<StartRequest, AudioRecorderError>)
        ensures
            old(self)@.recording ==> {
                &&& request == Err::<StartRequest, AudioRecorderError>(
                    AudioRecorderError::RecordingInProgress,
                )
                &&& final(self)@ == old(self)@
            },
            !old(self)@.recording ==> {
                &&& request == Ok::<StartRequest, AudioRecorderError>(
                    (StartRequest { input_only, sample_rate, channels, sample_size }),
                )
                &&& final(self)@ == RecorderState::begun()
            },
    {
        if self.recording_signal {
            return Err(AudioRecorderError::RecordingInProgress);
        }
        self.recording_signal = true;
        self.target_sample_rate = None;
        self.channels = None;
        self.sample_size = None;
        Ok(StartRequest { input_only, sample_rate, channels, sample_size })
    }

    /// Takes the outcome of opening the input device. A missing device ends the recording.
    pub fn input_device_opened(
        &mut self,
        request: StartRequest,
        opened: Result<(), AudioRecorderError>,
    ) -> (next: Result<AfterInput, AudioRecorderError>)
        ensures
            opened matches Err(error) ==> {
                &&& next == Err::<AfterInput, AudioRecorderError>(error)
                &&& final(self)@ == old(self)@.stopped()
            },
            opened is Ok ==> {
                &&& next == Ok::<AfterInput, AudioRecorderError>(
                    if request.input_only {
                        AfterInput::RecordSingle(request)
                    } else {
                        AfterInput::OpenOutput
                    },
                )
                &&& final(self)@ == old(self)@
            },
    {
        match opened {
            Ok(()) => {},
            Err(error) => {
                self.stop();
                return Err(error);
            },
        }
        if request.input_only {
            return Ok(AfterInput::RecordSingle(request));
        }
        Ok(AfterInput::OpenOutput)
    }

    /// Takes the outcome of opening the output device. A missing device ends the recording.
    /// Otherwise the configurations of both devices are to be read next, and handed to
    /// [`Recorder::sample_formats`].
    pub fn output_device_opened(&mut self, opened: Result<(), AudioRecorderError>) -> (next: Result<
        (),
        AudioRecorderError,
    >)
        ensures
            next == opened,
            opened is Err ==> final(self)@ == old(self)@.stopped(),
            opened is Ok ==> final(self)@ == old(self)@,
    {
        if opened.is_err() {
            self.stop();
        }
        opened
    }

    /// The sample formats, of the input and of the output, that [`Recorder::record_multiple`] is
    /// to be run with. A device that does not tell its configuration gives `None`. The input is
    /// looked at before the output.
    pub fn sample_formats(
        &self,
        input_config: Option<DeviceConfig>,
        output_config: Option<DeviceConfig>,
    ) -> (formats: Result<(SampleFormat, SampleFormat), AudioRecorderError>)
        ensures
            input_config is None ==> {
                &&& formats is Err
                &&& formats->Err_0.is_device_error("Failed to get input config"@)
            },
            input_config is Some && output_config is None ==> {
                &&& formats is Err
                &&& formats->Err_0.is_device_error("Failed to get output config"@)
            },
            (input_config, output_config) matches (Some(input), Some(output)) ==> {
                let input_format = input.sample_format;
                let output_format = output.sample_format;
                if !input_format.supported() {
                    formats is Err && formats->Err_0.is_signal_error(input_format.refusal())
                } else if !output_format.supported() {
                    formats is Err && formats->Err_0.is_signal_error(output_format.refusal())
                } else {
                    formats == Ok::<(SampleFormat, SampleFormat), AudioRecorderError>(
                        (input_format, output_format),
                    )
                }
            },
    {
        let (input, output): (DeviceConfig, DeviceConfig) = match both_configs(
            input_config,
            output_config,
        ) {
            Ok(configs) => configs,
            Err(error) => return Err(error),
        };
        if !input.sample_format.is_supported() {
            return Err(input.sample_format.refuse());
        }
        if !output.sample_format.is_supported() {
            return Err(output.sample_format.refuse());
        }
        Ok((input.sample_format, output.sample_format))
    }
}

impl Default for Recorder {
    fn default() -> (recorder: Self)
        ensures
            recorder@ == RecorderState::fresh(),
    {
        Self::new()
    }
}

} // verus!
