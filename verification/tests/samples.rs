use audio_recorder_rs::recorder::constants::{CustomSample, Single, EQUILIBRIUM};
use audio_recorder_rs::recorder::multiple_wo_resampler::latency_sample_count;
use audio_recorder_rs::recorder::device::{DeviceConfig, SampleFormat};
use audio_recorder_rs::recorder::single_precision::{latency_frame_count, round_to_single};
use dasp_sample::Sample;

/// Numbers all over the range of 64 bits.
fn spread() -> Vec<u64> {
    let mut numbers = Vec::new();
    let mut state: u64 = 0x9e37_79b9_7f4a_7c15;
    for i in 0..20_000u32 {
        state = state.wrapping_mul(6364136223846793005).wrapping_add(1442695040888963407);
        numbers.push(state >> (i % 64));
    }
    for shift in 0..64 {
        let power = 1u64 << shift;
        numbers.push(power);
        numbers.push(power - 1);
        numbers.push(power.wrapping_add(1));
    }
    numbers
}

#[test]
fn signed_samples_become_fractions_of_full_scale() {
    for s in i8::MIN..=i8::MAX {
        assert_eq!(s.to_target(), (s as f32 / 128.0).to_bits());
        assert_eq!(s.to_target(), s.to_sample::<f32>().to_bits());
    }
    for s in i16::MIN..=i16::MAX {
        assert_eq!(s.to_target(), (s as f32 / 32768.0).to_bits());
        assert_eq!(s.to_target(), s.to_sample::<f32>().to_bits());
    }
    for n in spread() {
        let s = n as i32;
        assert_eq!(s.to_target(), (s as f32 / 2147483648.0).to_bits());
        assert_eq!(s.to_target(), s.to_sample::<f32>().to_bits());
        let s = n as i64;
        assert_eq!(s.to_target(), (s as f32 / 9223372036854775808.0).to_bits());
        assert_eq!(s.to_target(), s.to_sample::<f32>().to_bits());
    }
}

#[test]
fn unsigned_samples_are_centred() {
    for s in u8::MIN..=u8::MAX {
        assert_eq!(s.to_target(), ((s as f32 - 128.0) / 128.0).to_bits());
        assert_eq!(s.to_target(), s.to_sample::<f32>().to_bits());
    }
    for s in u16::MIN..=u16::MAX {
        assert_eq!(s.to_target(), ((s as f32 - 32768.0) / 32768.0).to_bits());
        assert_eq!(s.to_target(), s.to_sample::<f32>().to_bits());
    }
    for n in spread() {
        let s = n as u32;
        let centred = s as i64 - 0x8000_0000;
        assert_eq!(s.to_target(), (centred as f32 / 2147483648.0).to_bits());
        assert_eq!(s.to_target(), s.to_sample::<f32>().to_bits());
        let centred = n as i128 - 0x8000_0000_0000_0000;
        assert_eq!(n.to_target(), (centred as f32 / 9223372036854775808.0).to_bits());
        assert_eq!(n.to_target(), n.to_sample::<f32>().to_bits());
    }
}

#[test]
fn full_scale_and_halves_are_exact() {
    assert_eq!(i8::MIN.to_target(), (-1.0f32).to_bits());
    assert_eq!(64i8.to_target(), 0.5f32.to_bits());
    assert_eq!(i32::MAX.to_target(), 1.0f32.to_bits());
    assert_eq!(i64::MIN.to_target(), (-1.0f32).to_bits());
    assert_eq!(0u8.to_target(), (-1.0f32).to_bits());
    assert_eq!(0xc000u16.to_target(), 0.5f32.to_bits());
    assert_eq!(0u32.to_target(), (-1.0f32).to_bits());
    assert_eq!(u64::MAX.to_target(), 1.0f32.to_bits());
}

#[test]
fn silence_stays_silence() {
    assert_eq!(EQUILIBRIUM, f32::EQUILIBRIUM.to_bits());
    assert_eq!(i8::EQUILIBRIUM.to_target(), EQUILIBRIUM);
    assert_eq!(i16::EQUILIBRIUM.to_target(), EQUILIBRIUM);
    assert_eq!(i32::EQUILIBRIUM.to_target(), EQUILIBRIUM);
    assert_eq!(i64::EQUILIBRIUM.to_target(), EQUILIBRIUM);
    assert_eq!(u8::EQUILIBRIUM.to_target(), EQUILIBRIUM);
    assert_eq!(u16::EQUILIBRIUM.to_target(), EQUILIBRIUM);
    assert_eq!(u32::EQUILIBRIUM.to_target(), EQUILIBRIUM);
    assert_eq!(u64::EQUILIBRIUM.to_target(), EQUILIBRIUM);
}

#[test]
fn single_precision_samples_stay_as_they_are() {
    for value in [0.0f32, -0.25, 1.0, f32::MIN_POSITIVE] {
        assert_eq!(Single { bits: value.to_bits() }.to_target(), value.to_bits());
    }
}

#[test]
fn rounding_agrees_with_the_hardware() {
    for n in spread() {
        let n = n >> 2;
        assert_eq!(round_to_single(n), n as f32 as u64);
    }
    // A tie goes to the even significand.
    assert_eq!(round_to_single(0x100_0001), 0x100_0000);
    assert_eq!(round_to_single(0x100_0003), 0x100_0004);
}

#[test]
fn latency_agrees_with_the_single_precision_product() {
    for n in spread() {
        let rate = n as u32;
        let expected = (150.0 / 1_000.0) * rate as f32;
        assert_eq!(latency_frame_count(rate), expected as u32);
    }
}

#[test]
fn latency_is_150_milliseconds() {
    assert_eq!(latency_frame_count(8000), 1200);
    assert_eq!(latency_frame_count(44100), 6615);
    assert_eq!(latency_frame_count(48000), 7200);
    assert_eq!(latency_frame_count(192000), 28800);
    assert_eq!(latency_frame_count(0), 0);
    for rate in (0..=3_000_000u32).step_by(7) {
        assert_eq!(latency_frame_count(rate), rate * 3 / 20);
    }
}

#[test]
fn latency_counts_the_channels_of_the_input() {
    let config = |sample_rate, channels| DeviceConfig {
        sample_rate,
        channels,
        sample_format: SampleFormat::F32,
    };
    assert_eq!(latency_sample_count(config(48000, 2)), Some(14400));
    assert_eq!(latency_sample_count(config(7, 1)), Some(1));
    assert_eq!(latency_sample_count(config(6, 1)), None);
    assert_eq!(latency_sample_count(config(48000, 0)), None);
}

#[test]
fn integer_samples_lie_within_full_scale() {
    for n in spread() {
        for bits in [
            (n as i8).to_target(),
            (n as i16).to_target(),
            (n as i32).to_target(),
            (n as i64).to_target(),
            (n as u8).to_target(),
            (n as u16).to_target(),
            (n as u32).to_target(),
            n.to_target(),
        ] {
            assert!(f32::from_bits(bits).abs() <= 1.0);
        }
    }
}
