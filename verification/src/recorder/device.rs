//! What a device tells about its stream.

use super::errors::AudioRecorderError;
use vstd::prelude::*;

verus! {

/// The format of the samples that a device delivers.
#[derive(Debug, Clone, Copy, PartialEq, Eq, Structural)]
pub enum SampleFormat {
    I8,
    I16,
    I24,
    I32,
    I64,
    U8,
    U16,
    U24,
    U32,
    U64,
    F32,
    F64,
    DsdU8,
    DsdU16,
    DsdU32,
}

/// The default stream configuration of a device.
#[derive(Debug, Clone, Copy, PartialEq, Eq, Structural)]
pub struct DeviceConfig {
    /// Frames per second.
    pub sample_rate: u32,
    /// Samples per frame.
    pub channels: u16,
    /// The format of a sample.
    pub sample_format: SampleFormat,
}

impl SampleFormat {
    /// The bytes that a sample takes in memory. 24-bit samples are stored in 32 bits.
    pub open spec fn size(self) -> nat {
        match self {
            SampleFormat::I8 | SampleFormat::U8 | SampleFormat::DsdU8 => 1,
            SampleFormat::I16 | SampleFormat::U16 | SampleFormat::DsdU16 => 2,
            SampleFormat::I64 | SampleFormat::U64 | SampleFormat::F64 => 8,
            _ => 4,
        }
    }

    /// The recorder takes the formats of the primitive number types and no others.
    pub open spec fn supported(self) -> bool {
        match self {
            SampleFormat::I24 | SampleFormat::U24 => false,
            SampleFormat::DsdU8 | SampleFormat::DsdU16 | SampleFormat::DsdU32 => false,
            _ => true,
        }
    }

    /// The name of the format, as it stands in error messages.
    pub open spec fn label(self) -> Seq<char> {
        match self {
            SampleFormat::I8 => "I8"@,
            SampleFormat::I16 => "I16"@,
            SampleFormat::I24 => "I24"@,
            SampleFormat::I32 => "I32"@,
            SampleFormat::I64 => "I64"@,
            SampleFormat::U8 => "U8"@,
            SampleFormat::U16 => "U16"@,
            SampleFormat::U24 => "U24"@,
            SampleFormat::U32 => "U32"@,
            SampleFormat::U64 => "U64"@,
            SampleFormat::F32 => "F32"@,
            SampleFormat::F64 => "F64"@,
            SampleFormat::DsdU8 => "DsdU8"@,
            SampleFormat::DsdU16 => "DsdU16"@,
            SampleFormat::DsdU32 => "DsdU32"@,
        }
    }

    /// The bytes that a sample takes in memory.
    pub fn sample_size(&self) -> (bytes: u32)
        ensures
            bytes == self.size(),
    {
        match self {
            SampleFormat::I8 | SampleFormat::U8 | SampleFormat::DsdU8 => 1,
            SampleFormat::I16 | SampleFormat::U16 | SampleFormat::DsdU16 => 2,
            SampleFormat::I64 | SampleFormat::U64 | SampleFormat::F64 => 8,
            _ => 4,
        }
    }

    /// Whether the recorder takes the format.
    pub fn is_supported(&self) -> (supported: bool)
        ensures
            supported == self.supported(),
    {
        match self {
            SampleFormat::I24 | SampleFormat::U24 => false,
            SampleFormat::DsdU8 | SampleFormat::DsdU16 | SampleFormat::DsdU32 => false,
            _ => true,
        }
    }

    /// The name of the format.
    pub fn name(&self) -> (name: &'static str)
        ensures
            name@ == self.label(),
    {
        match self {
            SampleFormat::I8 => "I8",
            SampleFormat::I16 => "I16",
            SampleFormat::I24 => "I24",
            SampleFormat::I32 => "I32",
            SampleFormat::I64 => "I64",
            SampleFormat::U8 => "U8",
            SampleFormat::U16 => "U16",
            SampleFormat::U24 => "U24",
            SampleFormat::U32 => "U32",
            SampleFormat::U64 => "U64",
            SampleFormat::F32 => "F32",
            SampleFormat::F64 => "F64",
            SampleFormat::DsdU8 => "DsdU8",
            SampleFormat::DsdU16 => "DsdU16",
            SampleFormat::DsdU32 => "DsdU32",
        }
    }

    /// The message of the error that refuses a format.
    pub open spec fn refusal(self) -> Seq<char> {
        "Unsupported sample format '"@ + self.label() + "'"@
    }

    /// The error that refuses the format.
    pub fn refuse(&self) -> (error: AudioRecorderError)
        ensures
            error.is_signal_error(self.refusal()),
    {
        let mut message: String = String::from_str("Unsupported sample format '");
        message.append(self.name());
        message.append("'");
        AudioRecorderError::SignalError(message)
    }
}

/// The two configurations that a session needs, once both devices have told theirs. A device
/// that does not tell its configuration gives `None`; the input device is asked first.
pub fn both_configs(
    input_config: Option<DeviceConfig>,
    output_config: Option<DeviceConfig>,
) -> (configs: Result<(DeviceConfig, DeviceConfig), AudioRecorderError>)
    ensures
        input_config is None ==> {
            &&& configs is Err
            &&& configs->Err_0.is_device_error("Failed to get input config"@)
        },
        input_config is Some && output_config is None ==> {
            &&& configs is Err
            &&& configs->Err_0.is_device_error("Failed to get output config"@)
        },
        input_config is Some && output_config is Some ==> configs == Ok::<
            (DeviceConfig, DeviceConfig),
            AudioRecorderError,
        >((input_config->Some_0, output_config->Some_0)),
{
    match input_config {
        None => Err(AudioRecorderError::DeviceError("Failed to get input config")),
        Some(input) => match output_config {
            None => Err(AudioRecorderError::DeviceError("Failed to get output config")),
            Some(output) => Ok((input, output)),
        },
    }
}

} // verus!
