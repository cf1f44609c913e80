use audio_recorder_rs::recorder::constants::{Single, TargetFormat};
use audio_recorder_rs::recorder::device::{DeviceConfig, SampleFormat};
use audio_recorder_rs::recorder::errors::AudioRecorderError;
use audio_recorder_rs::recorder::record_multiple_spawner::RecordingPlan;
use audio_recorder_rs::recorder::record_single_device::{parse_samples, StreamOutcome};
use audio_recorder_rs::recorder::{AfterInput, RecorderConfig, StartRequest};
use audio_recorder_rs::Recorder;

fn config(sample_rate: u32, channels: u16, sample_format: SampleFormat) -> DeviceConfig {
    DeviceConfig { sample_rate, channels, sample_format }
}

fn device_error<T>(result: Result<T, AudioRecorderError>) -> &'static str {
    match result {
        Err(AudioRecorderError::DeviceError(message)) => message,
        _ => panic!("no device error"),
    }
}

fn signal_error<T>(result: Result<T, AudioRecorderError>) -> String {
    match result {
        Err(AudioRecorderError::SignalError(message)) => message,
        _ => panic!("no signal error"),
    }
}

/// A recorder that has been started and whose devices are both open.
fn started() -> Recorder {
    let mut recorder = Recorder::new();
    let request = recorder.start(false, None, None, None).unwrap();
    assert_eq!(recorder.input_device_opened(request, Ok(())).unwrap(), AfterInput::OpenOutput);
    recorder.output_device_opened(Ok(())).unwrap();
    recorder
}

#[test]
fn record_multiple_devices() {
    let mut recorder = Recorder::new();

    // The devices answer as a machine with one stereo card would.
    let card = config(48000, 2, SampleFormat::F32);
    let request = match recorder.start(false, Some(8000), Some(1), Some(4)) {
        Ok(request) => request,
        Err(e) => panic!("Failed to start recorder: {e:?}"),
    };
    assert_eq!(recorder.input_device_opened(request, Ok(())).unwrap(), AfterInput::OpenOutput);
    assert!(recorder.output_device_opened(Ok(())).is_ok());
    assert_eq!(
        recorder.sample_formats(Some(card), Some(card)).unwrap(),
        (SampleFormat::F32, SampleFormat::F32)
    );
    let plan = recorder.record_multiple(Some(card), Some(card)).unwrap();
    assert_eq!(plan, RecordingPlan::WithoutResampler);
    let mut session = match recorder.without_resampler(Some(card), Some(card)) {
        Ok(session) => session,
        Err(e) => panic!("Failed to start recorder: {e:?}"),
    };

    assert!(recorder.get_is_recording(), "Recorder is not recording");

    let config = match recorder.get_config() {
        Ok(c) => c,
        Err(e) => panic!("Failed to get config: {e:?}"),
    };
    assert_eq!(config, RecorderConfig { sample_rate: 48000, channels: 2, sample_size: 4 });

    let mut file = std::io::Cursor::new(Vec::new());
    let mut writer = hound::WavWriter::new(
        &mut file,
        hound::WavSpec {
            sample_rate: config.sample_rate,
            channels: config.channels,
            bits_per_sample: (config.sample_size * 8) as _,
            sample_format: hound::SampleFormat::Float,
        },
    )
    .expect("Could not generate writer");

    for _ in 0..8 {
        let frame = [Single { bits: 0.5f32.to_bits() }; 480];
        session.write_output_data(&frame);
        for bits in session.write_input_data(&frame) {
            writer.write_sample(f32::from_bits(bits)).unwrap();
        }
    }
    writer.finalize().unwrap();
    recorder.stop();
    assert!(!recorder.get_is_recording());

    let reader = hound::WavReader::new(std::io::Cursor::new(file.into_inner())).unwrap();
    assert_eq!(reader.len(), 8 * 480 * 2);
}

#[test]
fn a_new_recorder_is_idle_and_unconfigured() {
    for recorder in [Recorder::new(), Recorder::default()] {
        assert!(!recorder.get_is_recording());
        assert!(matches!(recorder.get_config(), Err(AudioRecorderError::NotConfigured)));
    }
}

#[test]
fn start_hands_on_what_was_asked_for() {
    let mut recorder = Recorder::new();
    let request = recorder.start(true, Some(8000), Some(1), Some(4)).unwrap();
    let expected = StartRequest {
        input_only: true,
        sample_rate: Some(8000),
        channels: Some(1),
        sample_size: Some(4),
    };
    assert_eq!(request, expected);
    assert_eq!(
        recorder.input_device_opened(request, Ok(())).unwrap(),
        AfterInput::RecordSingle(expected)
    );
}

#[test]
fn start_refuses_a_second_recording() {
    let mut recorder = started();
    let card = config(44100, 2, SampleFormat::I16);
    recorder.record_multiple(Some(card), Some(card)).unwrap();
    assert!(matches!(
        recorder.start(false, None, None, None),
        Err(AudioRecorderError::RecordingInProgress)
    ));
    assert!(recorder.get_is_recording());
    assert_eq!(recorder.get_config().unwrap().sample_rate, 44100);
}

#[test]
fn stop_keeps_the_config_and_allows_a_new_start() {
    let mut recorder = started();
    let card = config(44100, 2, SampleFormat::I16);
    recorder.record_multiple(Some(card), Some(card)).unwrap();
    recorder.stop();
    recorder.stop();
    assert!(!recorder.get_is_recording());
    assert_eq!(
        recorder.get_config().unwrap(),
        RecorderConfig { sample_rate: 44100, channels: 2, sample_size: 2 }
    );
    assert!(recorder.start(false, None, None, None).is_ok());
    assert!(recorder.get_is_recording());
    assert!(recorder.get_config().is_err());
}

#[test]
fn a_missing_device_ends_the_recording() {
    let mut recorder = Recorder::new();
    let request = recorder.start(false, None, None, None).unwrap();
    let missing = Err(AudioRecorderError::DeviceError("no microphone"));
    assert_eq!(device_error(recorder.input_device_opened(request, missing)), "no microphone");
    assert!(!recorder.get_is_recording());

    let request = recorder.start(false, None, None, None).unwrap();
    recorder.input_device_opened(request, Ok(())).unwrap();
    let missing = Err(AudioRecorderError::DeviceError("no speaker"));
    assert_eq!(device_error(recorder.output_device_opened(missing)), "no speaker");
    assert!(!recorder.get_is_recording());
}

#[test]
fn formats_are_checked_input_first() {
    let recorder = started();
    let good = Some(config(44100, 2, SampleFormat::U64));
    let wide = Some(config(44100, 2, SampleFormat::I24));
    let dsd = Some(config(44100, 2, SampleFormat::DsdU32));
    assert_eq!(
        recorder.sample_formats(good, Some(config(1, 1, SampleFormat::I8))).unwrap(),
        (SampleFormat::U64, SampleFormat::I8)
    );
    assert_eq!(
        signal_error(recorder.sample_formats(wide, dsd)),
        "Unsupported sample format 'I24'"
    );
    assert_eq!(
        signal_error(recorder.sample_formats(good, dsd)),
        "Unsupported sample format 'DsdU32'"
    );
    assert_eq!(device_error(recorder.sample_formats(None, dsd)), "Failed to get input config");
    assert_eq!(device_error(recorder.sample_formats(wide, None)), "Failed to get output config");
    // The recording is not ended by these.
    assert!(recorder.get_is_recording());
}

#[test]
fn formats_have_sizes_and_names() {
    let formats = [
        (SampleFormat::I8, 1, "I8", true),
        (SampleFormat::I16, 2, "I16", true),
        (SampleFormat::I24, 4, "I24", false),
        (SampleFormat::I32, 4, "I32", true),
        (SampleFormat::I64, 8, "I64", true),
        (SampleFormat::U8, 1, "U8", true),
        (SampleFormat::U16, 2, "U16", true),
        (SampleFormat::U24, 4, "U24", false),
        (SampleFormat::U32, 4, "U32", true),
        (SampleFormat::U64, 8, "U64", true),
        (SampleFormat::F32, 4, "F32", true),
        (SampleFormat::F64, 8, "F64", true),
        (SampleFormat::DsdU8, 1, "DsdU8", false),
        (SampleFormat::DsdU16, 2, "DsdU16", false),
        (SampleFormat::DsdU32, 4, "DsdU32", false),
    ];
    for (format, size, name, supported) in formats {
        assert_eq!(format.sample_size(), size);
        assert_eq!(format.name(), name);
        assert_eq!(format!("{format:?}"), name);
        assert_eq!(format.is_supported(), supported);
    }
}

#[test]
fn the_faster_stream_is_resampled() {
    let slow = Some(config(44100, 1, SampleFormat::I16));
    let fast = Some(config(48000, 2, SampleFormat::F64));
    assert_eq!(
        started().record_multiple(fast, slow).unwrap(),
        RecordingPlan::WithInputResampler { target_rate: 44100, origin_rate: 48000 }
    );
    assert_eq!(
        started().record_multiple(slow, fast).unwrap(),
        RecordingPlan::WithOutputResampler { target_rate: 44100, origin_rate: 48000 }
    );
    assert_eq!(started().record_multiple(fast, fast).unwrap(), RecordingPlan::WithoutResampler);

    let mut recorder = started();
    recorder.record_multiple(fast, slow).unwrap();
    assert_eq!(
        recorder.get_config().unwrap(),
        RecorderConfig { sample_rate: 44100, channels: 2, sample_size: 8 }
    );
}

#[test]
fn a_fixed_rate_can_differ_from_both_streams() {
    let mut recorder = Recorder::new();
    recorder
        .record_single_device(Some(config(8000, 1, SampleFormat::U8)), true, None, None, None)
        .unwrap();
    let input = Some(config(48000, 2, SampleFormat::F32));
    let output = Some(config(44100, 2, SampleFormat::F32));
    assert_eq!(
        recorder.record_multiple(input, output).unwrap(),
        RecordingPlan::WithBothResampler {
            target_rate: 8000,
            input_origin_rate: 48000,
            output_origin_rate: 44100,
        }
    );
    // What is fixed stays.
    assert_eq!(
        recorder.get_config().unwrap(),
        RecorderConfig { sample_rate: 8000, channels: 1, sample_size: 1 }
    );
}

#[test]
fn record_multiple_needs_both_configs() {
    let card = Some(config(48000, 2, SampleFormat::F32));
    let mut recorder = started();
    assert_eq!(device_error(recorder.record_multiple(None, card)), "Failed to get input config");
    assert_eq!(device_error(recorder.record_multiple(card, None)), "Failed to get output config");
    assert!(recorder.get_config().is_err());
    assert!(recorder.get_is_recording());
}

#[test]
fn a_single_device_fixes_the_config() {
    let device = config(96000, 6, SampleFormat::I32);
    let mut recorder = Recorder::new();
    assert_eq!(
        recorder.record_single_device(Some(device), true, None, None, None).unwrap(),
        device
    );
    assert_eq!(
        recorder.get_config().unwrap(),
        RecorderConfig { sample_rate: 96000, channels: 6, sample_size: 4 }
    );
    recorder
        .record_single_device(Some(device), false, Some(8000), Some(1), Some(2))
        .unwrap();
    assert_eq!(
        recorder.get_config().unwrap(),
        RecorderConfig { sample_rate: 96000, channels: 1, sample_size: 2 }
    );
    assert_eq!(
        device_error(recorder.record_single_device(None, true, None, None, None)),
        "Failed to get default input config"
    );
    assert_eq!(
        device_error(recorder.record_single_device(None, false, None, None, None)),
        "Failed to get default output config"
    );
    assert_eq!(recorder.get_config().unwrap().channels, 1);
}

#[test]
fn a_single_stream_that_fails_ends_the_recording() {
    let mut recorder = started();
    assert_eq!(recorder.single_stream_opened(true, StreamOutcome::Playing), Ok(()));
    assert!(recorder.get_is_recording());
    assert_eq!(
        recorder.single_stream_opened(true, StreamOutcome::BuildFailed),
        Err("Failed to build input stream")
    );
    assert!(!recorder.get_is_recording());

    let mut recorder = started();
    assert_eq!(
        recorder.single_stream_opened(false, StreamOutcome::BuildFailed),
        Err("Failed to build output stream")
    );
    assert!(!recorder.get_is_recording());

    let mut recorder = started();
    assert_eq!(
        recorder.single_stream_opened(false, StreamOutcome::PlayFailed),
        Err("Failed to play stream")
    );
    assert!(!recorder.get_is_recording());
}

#[test]
fn single_streams_are_converted_sample_by_sample() {
    let parsed: Vec<TargetFormat> = parse_samples(&[i16::MIN, 0, 16384]);
    assert_eq!(parsed, vec![(-1.0f32).to_bits(), 0, 0.5f32.to_bits()]);
    let empty: [u8; 0] = [];
    assert!(parse_samples(&empty).is_empty());
}
