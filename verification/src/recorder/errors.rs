//! Errors of the recorder.

use vstd::prelude::*;

verus! {

/// What can go wrong when a recording is set up.
#[derive(Debug)]
pub enum AudioRecorderError {
    /// A recording is running already.
    RecordingInProgress,
    /// A device is missing or does not tell its configuration.
    DeviceError(&'static str),
    /// The signal of a device cannot be recorded.
    SignalError(String),
    /// No recording has fixed a configuration yet.
    NotConfigured,
}

impl AudioRecorderError {
    /// The error is a device error with the given message.
    pub open spec fn is_device_error(self, message: Seq<char>) -> bool {
        self matches AudioRecorderError::DeviceError(text) && text@ == message
    }

    /// The error is a signal error with the given message.
    pub open spec fn is_signal_error(self, message: Seq<char>) -> bool {
        self matches AudioRecorderError::SignalError(text) && text@ == message
    }
}

} // verus!
