use audio_recorder_rs::recorder::constants::{Single, TargetFormat, RESAMPLER_BUFFER_SIZE};
use audio_recorder_rs::recorder::device::{DeviceConfig, SampleFormat};
use audio_recorder_rs::recorder::errors::AudioRecorderError;
use audio_recorder_rs::recorder::multiple_w_resampler::{
    BothResamplersSession, MixedBlock, OneResamplerSession,
};
use audio_recorder_rs::recorder::multiple_wo_resampler::DirectSession;
use audio_recorder_rs::recorder::record_single_device::StreamOutcome;
use audio_recorder_rs::recorder::ring::interleave;
use audio_recorder_rs::Recorder;

fn config(sample_rate: u32, channels: u16) -> Option<DeviceConfig> {
    Some(DeviceConfig { sample_rate, channels, sample_format: SampleFormat::F32 })
}

fn singles(range: std::ops::Range<u32>) -> Vec<Single> {
    range.map(|bits| Single { bits }).collect()
}

fn numbers(range: std::ops::Range<u32>) -> Vec<TargetFormat> {
    range.collect()
}

fn device_error<T>(result: Result<T, AudioRecorderError>) -> &'static str {
    match result {
        Err(AudioRecorderError::DeviceError(message)) => message,
        _ => panic!("no device error"),
    }
}

/// A session whose latency is three samples.
fn direct() -> DirectSession {
    match Recorder::new().without_resampler(config(20, 1), config(20, 2)) {
        Ok(session) => session,
        Err(_) => panic!("no session"),
    }
}

fn input_resampler(target_rate: usize) -> OneResamplerSession {
    match Recorder::new().with_input_resampler(config(48000, 2), config(44100, 1), target_rate, 48000) {
        Ok(session) => session,
        Err(_) => panic!("no session"),
    }
}

fn output_resampler(target_rate: usize) -> OneResamplerSession {
    match Recorder::new().with_output_resampler(config(44100, 2), config(48000, 1), target_rate, 48000) {
        Ok(session) => session,
        Err(_) => panic!("no session"),
    }
}

fn both_resamplers(recorder: &Recorder, target_rate: usize) -> BothResamplersSession {
    match recorder.with_both_resampler(config(48000, 2), config(44100, 1), target_rate, 48000, 44100) {
        Ok(session) => session,
        Err(_) => panic!("no session"),
    }
}

#[test]
fn sessions_need_both_configs() {
    let recorder = Recorder::new();
    let told = config(44100, 2);
    let input = "Failed to get input config";
    let output = "Failed to get output config";
    assert_eq!(device_error(recorder.without_resampler(None, told)), input);
    assert_eq!(device_error(recorder.without_resampler(told, None)), output);
    assert_eq!(device_error(recorder.with_input_resampler(None, told, 1, 2)), input);
    assert_eq!(device_error(recorder.with_input_resampler(told, None, 1, 2)), output);
    assert_eq!(device_error(recorder.with_output_resampler(None, told, 1, 2)), input);
    assert_eq!(device_error(recorder.with_output_resampler(told, None, 1, 2)), output);
    assert_eq!(device_error(recorder.with_both_resampler(None, told, 1, 2, 3)), input);
    assert_eq!(device_error(recorder.with_both_resampler(told, None, 1, 2, 3)), output);
}

#[test]
fn the_output_lags_by_the_latency() {
    let mut session = direct();
    assert_eq!((session.input_channels, session.output_channels), (1, 2));
    assert_eq!(session.write_output_data(&singles(1..3)), 0);
    let parsed = session.write_input_data(&singles(11..17));
    assert_eq!(parsed, vec![11, 0, 12, 0, 13, 0, 14, 1, 15, 2, 16, 0]);
    // The ring buffer is empty now.
    assert_eq!(session.write_input_data(&singles(17..18)), vec![17, 0]);
}

#[test]
fn the_output_lags_by_the_latency_in_every_round() {
    let mut session = direct();
    let mut read: Vec<TargetFormat> = Vec::new();
    // Blocks of output samples, and the input samples that come after each.
    for (written, reads) in [(1..5, 2), (5..6, 0), (6..11, 3), (11..11, 2), (11..13, 1)] {
        session.write_output_data(&singles(written));
        let parsed = session.write_input_data(&singles(0..reads));
        read.extend(parsed.iter().skip(1).step_by(2));
    }
    // Of the first block three fit, of the third one.
    assert_eq!(read, vec![0, 0, 0, 1, 2, 3, 5, 6]);
    assert_eq!(session.write_input_data(&singles(0..3)), vec![0, 11, 1, 12, 2, 0]);
}

#[test]
fn a_gap_in_the_output_is_silent() {
    let mut session = direct();
    session.write_output_data(&singles(1..2));
    assert_eq!(session.write_input_data(&singles(11..17)), vec![11, 0, 12, 0, 13, 0, 14, 1, 15, 0, 16, 0]);
    // What is written after the gap is read at once.
    session.write_output_data(&singles(2..4));
    assert_eq!(session.write_input_data(&singles(17..20)), vec![17, 2, 18, 3, 19, 0]);
}

#[test]
fn streams_that_do_not_run_end_a_session() {
    let session = direct();
    assert!(session.stream_opened(StreamOutcome::Playing));
    assert!(!session.stream_opened(StreamOutcome::PlayFailed));
    assert!(!session.stream_opened(StreamOutcome::BuildFailed));
    for session in [input_resampler(4), output_resampler(4)] {
        assert!(session.stream_opened(StreamOutcome::Playing));
        assert!(!session.stream_opened(StreamOutcome::PlayFailed));
        assert!(!session.stream_opened(StreamOutcome::BuildFailed));
    }
}

#[test]
fn a_block_that_nobody_takes_ends_a_session_with_two_resamplers_only() {
    let session = both_resamplers(&Recorder::new(), 4);
    assert!(session.block_sent(true));
    assert!(!session.block_sent(false));
    for session in [input_resampler(4), output_resampler(4)] {
        assert!(session.block_sent(true));
        assert!(session.block_sent(false));
    }
}

#[test]
fn a_full_ring_drops_the_newest_samples() {
    let mut session = direct();
    // Six places, three of them silent.
    assert_eq!(session.write_output_data(&singles(1..6)), 2);
    assert_eq!(session.write_output_data(&singles(6..7)), 1);
    let parsed = session.write_input_data(&singles(11..18));
    assert_eq!(parsed, vec![11, 0, 12, 0, 13, 0, 14, 1, 15, 2, 16, 3, 17, 0]);
}

#[test]
fn pieces_of_a_stream_make_no_difference() {
    let mut whole = direct();
    let mut pieces = direct();
    whole.write_output_data(&singles(1..4));
    pieces.write_output_data(&singles(1..2));
    pieces.write_output_data(&singles(2..4));
    let expected = whole.write_input_data(&singles(11..19));
    let mut parsed = pieces.write_input_data(&singles(11..15));
    parsed.extend(pieces.write_input_data(&singles(15..19)));
    assert_eq!(parsed, expected);
}

#[test]
fn samples_are_converted_on_their_way_in() {
    let mut session = direct();
    session.write_output_data(&[i8::MIN]);
    let parsed = session.write_input_data(&[0u8, 64, 128, 192]);
    let expected: Vec<u32> = [-1.0f32, 0.0, -0.5, 0.0, 0.0, 0.0, 0.5, -1.0]
        .iter()
        .map(|value| value.to_bits())
        .collect();
    assert_eq!(parsed, expected);
}

#[test]
fn interleaving_keeps_both_channels() {
    assert_eq!(interleave(&vec![1, 2, 3], &vec![4, 5, 6]), vec![1, 4, 2, 5, 3, 6]);
    assert!(interleave(&vec![], &vec![]).is_empty());
}

#[test]
fn a_lane_hands_out_whole_chunks_in_order() {
    let mut session = input_resampler(4);
    assert_eq!(session.origin_rate, 48000);
    session.write_input_data(&singles(0..10));
    // There is no resampler yet.
    assert_eq!(session.lane.next_chunk(), None);
    session.lane.resampler_ready(4);
    assert_eq!(session.lane.next_chunk(), Some(numbers(0..4)));
    session.lane.chunk_resampled(Some((&[100, 101], 5)));
    assert_eq!(session.lane.next_chunk(), Some(numbers(4..9)));
    // A failed chunk is lost, and the next one is as long.
    session.lane.chunk_resampled(None);
    assert_eq!(session.lane.next_chunk(), None);
    session.write_input_data(&singles(10..14));
    assert_eq!(session.lane.next_chunk(), Some(numbers(9..14)));
}

#[test]
fn a_resampled_input_comes_first() {
    let mut session = input_resampler(3);
    assert_eq!(session.next_block(), None);
    session.lane.resampler_ready(2);
    session.lane.chunk_resampled(Some((&[1, 2], 2)));
    assert_eq!(session.next_block(), None);
    session.write_output_data(&singles(11..15));
    // One stream with a whole block is enough; the other is filled up with silence.
    assert_eq!(session.next_block(), Some(vec![1, 11, 2, 12, 0, 13]));
    assert_eq!(session.next_block(), None);
    session.lane.chunk_resampled(Some((&[3, 4, 5], 2)));
    assert_eq!(session.next_block(), Some(vec![3, 14, 4, 0, 5, 0]));
}

#[test]
fn a_resampled_output_comes_second() {
    let mut session = output_resampler(2);
    session.write_input_data(&singles(1..3));
    session.write_output_data(&singles(21..24));
    session.lane.resampler_ready(3);
    assert_eq!(session.lane.next_chunk(), Some(numbers(21..24)));
    session.lane.chunk_resampled(Some((&[31], 3)));
    assert_eq!(session.next_block(), Some(vec![1, 31, 2, 0]));
    assert_eq!(session.next_block(), None);
}

#[test]
fn resampling_rings_hold_two_chunks() {
    let mut session = output_resampler(RESAMPLER_BUFFER_SIZE);
    let many = singles(0..100_000);
    assert_eq!(session.write_input_data(&many), 100_000 - 88_200);
    assert_eq!(session.write_output_data(&many), 100_000 - 88_200);
    let block = session.next_block().unwrap();
    assert_eq!(block.len(), 2 * 88_200);
    assert_eq!((block[2], block[3]), (1, 0));

    // What the resampler gives is cut off too.
    session.lane.chunk_resampled(Some((&numbers(0..100_000), 1)));
    assert_eq!(session.next_block().unwrap()[2 * 88_200 - 1], 88_199);
}

#[test]
fn no_block_is_mixed_beyond_the_buffer() {
    let mut session = input_resampler(RESAMPLER_BUFFER_SIZE + 1);
    session.write_output_data(&singles(0..100_000));
    session.lane.chunk_resampled(Some((&numbers(0..100_000), 1)));
    assert_eq!(session.next_block(), None);
}

#[test]
fn two_resampled_streams_wait_for_each_other() {
    let mut session = both_resamplers(&Recorder::new(), 2);
    assert_eq!((session.input_origin_rate, session.output_origin_rate), (48000, 44100));
    session.input.write_data(&singles(1..4));
    session.input.resampler_ready(3);
    assert_eq!(session.input.next_chunk(), Some(numbers(1..4)));
    session.input.chunk_resampled(Some((&[5, 6, 7], 3)));
    session.output.chunk_resampled(Some((&[8], 3)));
    assert!(session.next_block().is_none());
    session.output.chunk_resampled(Some((&[9], 3)));
    match session.next_block() {
        Some(MixedBlock::Interleaved(data)) => assert_eq!(data, vec![5, 8, 6, 9]),
        _ => panic!("no interleaved block"),
    }
    assert!(session.next_block().is_none());
}

#[test]
fn one_channel_is_averaged() {
    let mut recorder = Recorder::new();
    let mono = DeviceConfig { sample_rate: 8000, channels: 1, sample_format: SampleFormat::F32 };
    recorder.record_single_device(Some(mono), true, None, None, None).unwrap();
    let mut session = both_resamplers(&recorder, 2);
    session.input.chunk_resampled(Some((&[5, 6, 7], 3)));
    session.output.chunk_resampled(Some((&[8, 9], 3)));
    match session.next_block() {
        Some(MixedBlock::Averaged { input, output }) => {
            assert_eq!(input, vec![5, 6]);
            assert_eq!(output, vec![8, 9]);
        }
        _ => panic!("no averaged block"),
    }
}
