use audio_recorder_rs::recorder::stream_resampler::StreamResampler;

#[test]
fn a_resampler_starts_with_one_silent_frame() {
    let mut resampler = StreamResampler::new(48000, 44100, 2);
    assert_eq!((resampler.input_rate, resampler.output_rate, resampler.channels), (48000, 44100, 2));
    assert_eq!(resampler.leftover, vec![0, 0]);
    resampler.process(&[1, 2, 3, 4], &[], 1);
    assert_eq!(resampler.leftover, vec![1, 2, 3, 4]);
    resampler.reset();
    assert_eq!(resampler.leftover, vec![0, 0]);
    assert_eq!(resampler.input_rate, 48000);
}

#[test]
fn samples_on_both_sides_of_a_position_are_paired() {
    let mut resampler = StreamResampler::new(2, 1, 2);
    let input = [1, 2, 3, 4, 5, 6];
    assert_eq!(resampler.total_frames(input.len()), 4);
    let result = resampler.process(&input, &[0, 2, 1], 2);
    assert_eq!(result.steps, 3);
    assert_eq!(result.pairs, vec![(0, 1), (0, 2), (3, 5), (4, 6), (1, 3), (2, 4)]);
    assert_eq!(result.consumed_frames, 2);
    assert_eq!(resampler.leftover, vec![3, 4, 5, 6]);
}

#[test]
fn a_position_without_a_next_frame_ends_the_pairing() {
    let mut resampler = StreamResampler::new(1, 1, 1);
    let result = resampler.process(&[1, 2], &[1, 2, 0], usize::MAX);
    assert_eq!(result.steps, 1);
    assert_eq!(result.pairs, vec![(1, 2)]);
    // Everything is passed, so one silent frame is kept.
    assert_eq!(result.consumed_frames, 3);
    assert_eq!(resampler.leftover, vec![0]);
    let result = resampler.process(&[7], &[usize::MAX], 0);
    assert_eq!(result.steps, 0);
    assert_eq!(resampler.leftover, vec![0, 7]);
}

#[test]
fn no_input_changes_nothing() {
    let mut resampler = StreamResampler::new(1, 1, 0);
    let result = resampler.process(&[], &[0, 1], 5);
    assert_eq!((result.steps, result.consumed_frames), (0, 0));
    assert!(result.pairs.is_empty());
    assert!(resampler.leftover.is_empty());
}

#[test]
fn broken_frames_stay_in_the_leftover() {
    let mut resampler = StreamResampler::new(1, 1, 2);
    let result = resampler.process(&[1, 2, 3], &[0], 9);
    assert_eq!(result.pairs, vec![(0, 1), (0, 2)]);
    assert_eq!(result.consumed_frames, 2);
    assert_eq!(resampler.leftover, vec![3]);
}

/// Hands blocks to a resampler of one rate in `unit` and another in `step`, with the positions
/// counted exactly. Gives the pairs, each with its fraction, and the phase and samples that are
/// carried in the end.
fn walk(
    channels: u16,
    step: usize,
    unit: usize,
    blocks: &[&[u32]],
) -> (Vec<((u32, u32), usize)>, usize, Vec<u32>) {
    let mut resampler = StreamResampler::new(unit as u32, step as u32, channels);
    let mut phase = 0;
    let mut all = Vec::new();
    for block in blocks {
        let limit = (resampler.total_frames(block.len()) - 1) * unit;
        let mut positions = Vec::new();
        let mut fractions = Vec::new();
        while phase < limit {
            positions.push(phase / unit);
            fractions.push(phase % unit);
            phase += step;
        }
        let result = resampler.process(block, &positions, phase / unit);
        assert_eq!(result.steps, positions.len());
        phase -= result.consumed_frames * unit;
        for (k, pair) in result.pairs.iter().enumerate() {
            all.push((*pair, fractions[k / channels as usize]));
        }
    }
    (all, phase, resampler.leftover)
}

#[test]
fn equal_rates_delay_the_stream_by_one_frame() {
    let (pairs, phase, leftover) = walk(2, 7, 7, &[&[1, 2, 3, 4], &[], &[5, 6], &[7, 8, 9, 10]]);
    let firsts: Vec<u32> = pairs.iter().map(|pair| pair.0 .0).collect();
    assert_eq!(firsts, vec![0, 0, 1, 2, 3, 4, 5, 6, 7, 8]);
    assert!(pairs.iter().all(|pair| pair.1 == 0));
    assert_eq!((phase, leftover), (0, vec![9, 10]));
}

#[test]
fn one_frame_and_a_part_are_carried() {
    for step in 1..6 {
        let (_, phase, leftover) = walk(2, step, 5, &[&[1, 2, 3], &[4], &[5, 6, 7, 8, 9]]);
        assert!(phase < 5);
        assert_eq!(leftover, vec![7, 8, 9]);
    }
}

#[test]
fn cuts_between_blocks_make_no_difference() {
    let stream: Vec<u32> = (1..20).collect();
    for step in 1..4 {
        let whole = walk(2, step, 3, &[&stream]);
        for cut in 0..stream.len() {
            let (first, second) = stream.split_at(cut);
            assert_eq!(walk(2, step, 3, &[first, second]), whole);
            assert_eq!(walk(2, step, 3, &[first, &[], second]), whole);
        }
        let single: Vec<&[u32]> = stream.chunks(1).collect();
        assert_eq!(walk(2, step, 3, &single), whole);
    }
}

#[test]
fn a_half_step_gives_every_frame_twice() {
    let (pairs, phase, leftover) = walk(1, 1, 2, &[&[4, 6]]);
    assert_eq!(pairs, vec![((0, 4), 0), ((0, 4), 1), ((4, 6), 0), ((4, 6), 1)]);
    assert_eq!((phase, leftover), (0, vec![6]));
}

#[test]
fn frames_that_come_out_are_counted() {
    for (step, unit) in [(1, 1), (2, 3), (3, 2), (7, 2), (5, 8), (147, 160), (160, 147)] {
        for n in 1..12 {
            let input: Vec<u32> = (0..2 * n as u32).collect();
            let (pairs, _, _) = walk(2, step, unit, &[&input]);
            assert_eq!(pairs.len(), (n * unit + step - 1) / step * 2);
        }
    }
}

#[test]
fn a_higher_output_rate_passes_over_frames() {
    // The end of the walk lies behind all frames, so one silent frame is kept.
    let (pairs, phase, leftover) = walk(1, 3, 1, &[&[4]]);
    assert_eq!(pairs, vec![((0, 4), 0)]);
    assert_eq!((phase, leftover), (1, vec![0]));
    let (pairs, phase, leftover) = walk(1, 3, 2, &[&[1, 2, 3, 4]]);
    assert_eq!(pairs, vec![((0, 1), 0), ((1, 2), 1), ((3, 4), 0)]);
    assert_eq!((phase, leftover), (1, vec![4]));
}
