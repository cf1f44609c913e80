//! The walk of a linear resampler through its stream, in exact arithmetic, and its laws.

use super::ring::{lesser, silence};
use super::stream_resampler::{frame_numbers, kept, pairs_at, StreamResampler};
use vstd::arithmetic::div_mod::{lemma_fundamental_div_mod, lemma_fundamental_div_mod_converse};
use vstd::prelude::*;

verus! {

/// How a stream is walked in exact arithmetic: a position advances by `step / unit` frames. With
/// `step` the output rate and `unit` the input rate this is what a floating-point phase counts,
/// as long as every phase can be represented. In double precision that is so where `unit` is a
/// power of two, `step` is at most `unit`, and a call works on at most
/// `0x20_0000_0000_0000 / unit` frames.
pub struct Walk {
    /// Samples per frame.
    pub channels: nat,
    /// What a position advances by, in parts of a frame.
    pub step: int,
    /// The parts of a frame.
    pub unit: int,
}

/// What a resampler carries from one call to the next.
#[verifier::ext_equal]
pub struct Carried {
    /// The samples that have not been passed yet.
    pub leftover: Seq<u32>,
    /// The next position, in parts of a frame.
    pub phase: int,
}

/// How far a phase lies below a limit.
pub open spec fn distance(phase: int, limit: int) -> int {
    if phase < limit {
        limit - phase
    } else {
        0
    }
}

/// The phases from `phase` on that lie below `limit`.
pub open spec fn phases_below(phase: int, step: int, limit: int) -> Seq<int>
    decreases distance(phase, limit),
{
    if step > 0 && phase < limit {
        seq![phase] + phases_below(phase + step, step, limit)
    } else {
        Seq::empty()
    }
}

/// The first phase from `phase` on that does not lie below `limit`.
pub open spec fn first_phase_from(phase: int, step: int, limit: int) -> int
    decreases distance(phase, limit),
{
    if step > 0 && phase < limit {
        first_phase_from(phase + step, step, limit)
    } else {
        phase
    }
}

/// Phases `by` later.
pub open spec fn later(phases: Seq<int>, by: int) -> Seq<int> {
    Seq::new(phases.len(), |i: int| phases[i] + by)
}

/// The first sample of each pair, which is what a pair interpolates to at the fraction zero.
pub open spec fn firsts(pairs: Seq<(u32, u32)>) -> Seq<u32> {
    Seq::new(pairs.len(), |k: int| pairs[k].0)
}

impl Walk {
    /// There are channels, and a position advances by at most a frame: the output rate is not
    /// above the input rate.
    pub open spec fn wf(self) -> bool {
        self.channels > 0 && 0 < self.step <= self.unit
    }

    /// The whole frames of `samples`.
    pub open spec fn frames(self, samples: Seq<u32>) -> int {
        (samples.len() / self.channels) as int
    }

    /// The phase of the last whole frame, from which on there is no next frame to interpolate to.
    pub open spec fn limit(self, samples: Seq<u32>) -> int {
        (self.frames(samples) - 1) * self.unit
    }

    /// The phases at which a call interpolates that takes `input` in.
    pub open spec fn phases(self, carried: Carried, input: Seq<u32>) -> Seq<int> {
        phases_below(carried.phase, self.step, self.limit(carried.leftover + input))
    }

    /// The phase at the end of the call.
    pub open spec fn end(self, carried: Carried, input: Seq<u32>) -> int {
        first_phase_from(carried.phase, self.step, self.limit(carried.leftover + input))
    }

    /// The whole frames of phases.
    pub open spec fn positions(self, phases: Seq<int>) -> Seq<int> {
        Seq::new(phases.len(), |i: int| phases[i] / self.unit)
    }

    /// The fractions of phases, in parts of a frame.
    pub open spec fn fractions(self, phases: Seq<int>) -> Seq<int> {
        Seq::new(phases.len(), |i: int| phases[i] % self.unit)
    }

    /// The pairs that the call gives.
    pub open spec fn pairs(self, carried: Carried, input: Seq<u32>) -> Seq<(u32, u32)> {
        pairs_at(
            carried.leftover + input,
            self.channels,
            self.positions(self.phases(carried, input)),
        )
    }

    /// The fractions at which the call's pairs are interpolated, one for each position.
    pub open spec fn weights(self, carried: Carried, input: Seq<u32>) -> Seq<int> {
        self.fractions(self.phases(carried, input))
    }

    /// What is carried over to the next call.
    pub open spec fn next(self, carried: Carried, input: Seq<u32>) -> Carried {
        let samples = carried.leftover + input;
        let end = self.end(carried, input);
        let consumed = lesser(end / self.unit, self.frames(samples));
        Carried {
            leftover: kept(samples, self.channels, consumed as nat),
            phase: end - consumed * self.unit,
        }
    }

    /// What a new resampler carries, and one that was reset.
    pub open spec fn fresh(self) -> Carried {
        Carried { leftover: silence(self.channels), phase: 0 }
    }

    /// One whole frame and perhaps a part of one is carried, and the position lies in the whole
    /// frame.
    pub open spec fn in_step(self, carried: Carried) -> bool {
        &&& self.channels <= carried.leftover.len() < 2 * self.channels
        &&& 0 <= carried.phase < self.unit
    }

    /// What is carried over after a sequence of calls.
    pub open spec fn next_of_all(self, carried: Carried, blocks: Seq<Seq<u32>>) -> Carried
        decreases blocks.len(),
    {
        if blocks.len() == 0 {
            carried
        } else {
            self.next(self.next_of_all(carried, blocks.drop_last()), blocks.last())
        }
    }

    /// The pairs that a sequence of calls gives, one call after the other.
    pub open spec fn pairs_of_all(self, carried: Carried, blocks: Seq<Seq<u32>>) -> Seq<(u32, u32)>
        decreases blocks.len(),
    {
        if blocks.len() == 0 {
            Seq::empty()
        } else {
            self.pairs_of_all(carried, blocks.drop_last()) + self.pairs(
                self.next_of_all(carried, blocks.drop_last()),
                blocks.last(),
            )
        }
    }

    /// The fractions of a sequence of calls, one call after the other.
    pub open spec fn weights_of_all(self, carried: Carried, blocks: Seq<Seq<u32>>) -> Seq<int>
        decreases blocks.len(),
    {
        if blocks.len() == 0 {
            Seq::empty()
        } else {
            self.weights_of_all(carried, blocks.drop_last()) + self.weights(
                self.next_of_all(carried, blocks.drop_last()),
                blocks.last(),
            )
        }
    }
}

/// Phases from `phase` on lie below the limit, and no lower than `phase`.
proof fn lemma_phases_bounds(phase: int, step: int, limit: int)
    requires
        step > 0,
    ensures
        forall|i: int|
            0 <= i < phases_below(phase, step, limit).len() ==> phase <= #[trigger] phases_below(
                phase,
                step,
                limit,
            )[i] < limit,
        phase >= limit ==> first_phase_from(phase, step, limit) == phase,
        phase < limit ==> limit <= first_phase_from(phase, step, limit) < limit + step,
    decreases distance(phase, limit),
{
    if phase < limit {
        lemma_phases_bounds(phase + step, step, limit);
        let tail = phases_below(phase + step, step, limit);
        let all = phases_below(phase, step, limit);
        assert forall|i: int| 0 <= i < all.len() implies phase <= #[trigger] all[i] < limit by {
            if i > 0 {
                assert(all[i] == tail[i - 1]);
            }
        }
    }
}

/// To walk to a limit and on to a later one is to walk to the later one.
proof fn lemma_phases_join(phase: int, step: int, limit: int, later_limit: int)
    requires
        step > 0,
        limit <= later_limit,
    ensures
        phases_below(phase, step, later_limit) == phases_below(phase, step, limit) + phases_below(
            first_phase_from(phase, step, limit),
            step,
            later_limit,
        ),
        first_phase_from(phase, step, later_limit) == first_phase_from(
            first_phase_from(phase, step, limit),
            step,
            later_limit,
        ),
    decreases distance(phase, limit),
{
    if phase < limit {
        lemma_phases_join(phase + step, step, limit, later_limit);
    }
    assert(phases_below(phase, step, later_limit) =~= phases_below(phase, step, limit)
        + phases_below(first_phase_from(phase, step, limit), step, later_limit));
}

/// A walk that starts later by some distance, to a limit later by as much, is the same walk.
proof fn lemma_phases_shift(phase: int, step: int, limit: int, by: int)
    requires
        step > 0,
    ensures
        phases_below(phase + by, step, limit + by) == later(phases_below(phase, step, limit), by),
        first_phase_from(phase + by, step, limit + by) == first_phase_from(phase, step, limit) + by,
    decreases distance(phase, limit),
{
    if phase < limit {
        lemma_phases_shift(phase + step, step, limit, by);
        assert(phase + by + step == phase + step + by);
    }
    assert(phases_below(phase + by, step, limit + by) =~= later(
        phases_below(phase, step, limit),
        by,
    ));
}

/// How a stream is cut into blocks makes no difference to the pairs: those of the whole stream
/// are those of the first block, followed by those of what is kept and the second block. Nor does
/// it make one to what is kept in the end.
pub proof fn law_pairing_blocks_joins(
    first: Seq<u32>,
    second: Seq<u32>,
    channels: nat,
    consumed: nat,
    later_consumed: nat,
    positions: Seq<int>,
    later_positions: Seq<int>,
)
    requires
        channels > 0,
        consumed * channels < first.len(),
        forall|i: int|
            0 <= i < positions.len() ==> 0 <= #[trigger] positions[i] && (positions[i] + 2)
                * channels <= first.len(),
        forall|i: int|
            0 <= i < later_positions.len() ==> 0 <= #[trigger] later_positions[i] && (
            later_positions[i] + 2) * channels <= kept(first, channels, consumed).len()
                + second.len(),
    ensures
        pairs_at(first + second, channels, positions + later(later_positions, consumed as int))
            == pairs_at(first, channels, positions) + pairs_at(
            kept(first, channels, consumed) + second,
            channels,
            later_positions,
        ),
        kept(kept(first, channels, consumed) + second, channels, later_consumed) == kept(
            first + second,
            channels,
            consumed + later_consumed,
        ),
{
    let c = channels as int;
    let n = positions.len() as int;
    let m = later_positions.len() as int;
    let rest = kept(first, channels, consumed) + second;
    let both = positions + later(later_positions, consumed as int);
    let left = pairs_at(first + second, channels, both);
    let front = pairs_at(first, channels, positions);
    let right = front + pairs_at(rest, channels, later_positions);
    assert((n + m) * c == n * c + m * c) by (nonlinear_arith);
    assert forall|k: int| 0 <= k < left.len() implies left[k] == right[k] by {
        let q = k / c;
        let r = k % c;
        lemma_fundamental_div_mod(k, c);
        if k < n * c {
            assert(0 <= q < n) by (nonlinear_arith)
                requires
                    0 <= k < n * c,
                    k == c * q + r,
                    0 <= r < c,
            ;
            assert(both[q] == positions[q]);
            let p = positions[q];
            assert(p * c >= 0 && (p + 2) * c == p * c + c + c) by (nonlinear_arith)
                requires
                    p >= 0,
                    c > 0,
            ;
        } else {
            let j = k - n * c;
            let q2 = q - n;
            assert(j == c * q2 + r) by (nonlinear_arith)
                requires
                    j == k - n * c,
                    k == c * q + r,
                    q2 == q - n,
            ;
            lemma_fundamental_div_mod_converse(j, c, q2, r);
            assert(0 <= q2 < m) by (nonlinear_arith)
                requires
                    0 <= j < m * c,
                    j == c * q2 + r,
                    0 <= r < c,
            ;
            let p = later_positions[q2];
            let e = consumed as int;
            assert(both[q] == p + e);
            assert((p + e) * c == p * c + e * c && p * c >= 0 && (p + 2) * c == p * c + c + c)
                by (nonlinear_arith)
                requires
                    p >= 0,
                    c > 0,
            ;
            assert(e * c >= 0) by (nonlinear_arith)
                requires
                    e >= 0,
                    c > 0,
            ;
            let before = p * c + r;
            assert((first + second)[e * c + before] == rest[before]);
            assert((first + second)[e * c + before + c] == rest[before + c]);
        }
    }
    assert(left =~= right);
    let f = later_consumed as int;
    assert((consumed + f) * c == consumed * c + f * c && f * c >= 0) by (nonlinear_arith)
        requires
            f >= 0,
            c > 0,
    ;
    assert(kept(rest, channels, later_consumed) =~= kept(
        first + second,
        channels,
        consumed + later_consumed,
    ));
}

/// Whatever the rates, every position of a call has a next frame.
proof fn lemma_positions_have_a_next_frame(walk: Walk, carried: Carried, input: Seq<u32>)
    requires
        walk.step > 0,
        walk.unit > 0,
        carried.phase >= 0,
    ensures
        forall|i: int|
            0 <= i < walk.phases(carried, input).len() ==> {
                let position = #[trigger] walk.positions(walk.phases(carried, input))[i];
                0 <= position && position + 1 < walk.frames(carried.leftover + input)
            },
{
    let samples = carried.leftover + input;
    let u = walk.unit;
    let frames = walk.frames(samples);
    lemma_phases_bounds(carried.phase, walk.step, walk.limit(samples));
    assert forall|i: int| 0 <= i < walk.phases(carried, input).len() implies {
        let position = #[trigger] walk.positions(walk.phases(carried, input))[i];
        0 <= position && position + 1 < frames
    } by {
        let p = walk.phases(carried, input)[i];
        let q = p / u;
        let r = p % u;
        lemma_fundamental_div_mod(p, u);
        assert(0 <= q < frames - 1) by (nonlinear_arith)
            requires
                0 <= p < (frames - 1) * u,
                p == u * q + r,
                0 <= r < u,
        ;
    }
}

/// Nothing but the last whole frame, and the part of a frame behind it, is carried over, so what
/// is carried never grows; and it is the end of what was there. The position never runs past the
/// frames.
pub proof fn law_one_frame_is_carried(walk: Walk, carried: Carried, input: Seq<u32>)
    requires
        walk.wf(),
        walk.in_step(carried),
    ensures
        walk.in_step(walk.next(carried, input)),
        walk.end(carried, input) / walk.unit == walk.frames(carried.leftover + input) - 1,
        0 <= walk.end(carried, input) < walk.frames(carried.leftover + input) * walk.unit,
        walk.next(carried, input).leftover.is_suffix_of(carried.leftover + input),
        forall|i: int|
            0 <= i < walk.phases(carried, input).len() ==> {
                let position = #[trigger] walk.positions(walk.phases(carried, input))[i];
                0 <= position && position + 1 < walk.frames(carried.leftover + input)
            },
{
    let samples = carried.leftover + input;
    let c = walk.channels as int;
    let u = walk.unit;
    let frames = walk.frames(samples);
    let limit = walk.limit(samples);
    let end = walk.end(carried, input);
    lemma_fundamental_div_mod(samples.len() as int, c);
    let part = samples.len() as int % c;
    assert(frames >= 1) by (nonlinear_arith)
        requires
            samples.len() >= c,
            samples.len() == c * frames + part,
            part < c,
            c > 0,
    ;
    assert(limit >= 0) by (nonlinear_arith)
        requires
            limit == (frames - 1) * u,
            frames >= 1,
            u > 0,
    ;
    lemma_phases_bounds(carried.phase, walk.step, limit);
    // The end lies in the last whole frame.
    if carried.phase >= limit {
        assert(frames == 1) by (nonlinear_arith)
            requires
                (frames - 1) * u < u,
                frames >= 1,
                u > 0,
        ;
    }
    assert(limit <= end < limit + u);
    assert(limit + u == frames * u) by (nonlinear_arith)
        requires
            limit == (frames - 1) * u,
    ;
    lemma_fundamental_div_mod_converse(end, u, frames - 1, end - limit);
    assert((frames - 1) * c == c * frames - c) by (nonlinear_arith);
    assert(walk.next(carried, input).leftover =~= samples.skip((frames - 1) * c));
    lemma_positions_have_a_next_frame(walk, carried, input);
}

/// A resampler that is handed the positions of the walk uses them all, whatever the rates, and so
/// gives the pairs of the walk: none of the positions is without a next frame. Handed the end of
/// the walk as well, it keeps what the walk carries over.
pub proof fn law_walked_positions_are_all_used(
    walk: Walk,
    carried: Carried,
    input: Seq<u32>,
    positions: Seq<usize>,
    steps: int,
    end_position: usize,
)
    requires
        walk.channels > 0,
        walk.step > 0,
        walk.unit > 0,
        carried.phase >= 0,
        frame_numbers(positions) == walk.positions(walk.phases(carried, input)),
        end_position == walk.end(carried, input) / walk.unit,
        0 <= steps <= positions.len(),
        steps < positions.len() ==> positions[steps] + 1 >= walk.frames(carried.leftover + input),
    ensures
        steps == positions.len(),
        pairs_at(carried.leftover + input, walk.channels, frame_numbers(positions.take(steps)))
            == walk.pairs(carried, input),
        kept(
            carried.leftover + input,
            walk.channels,
            lesser(end_position as int, walk.frames(carried.leftover + input)) as nat,
        ) == walk.next(carried, input).leftover,
{
    lemma_positions_have_a_next_frame(walk, carried, input);
    let walked = walk.positions(walk.phases(carried, input));
    assert(frame_numbers(positions).len() == walked.len());
    if steps < positions.len() {
        assert(walked[steps] == frame_numbers(positions)[steps]);
        assert(walked[steps] + 1 < walk.frames(carried.leftover + input));
    }
    assert(positions.take(steps) =~= positions);
}

/// Phases are as many as steps fit below the limit, the last one perhaps not wholly.
proof fn lemma_phases_count(phase: int, step: int, limit: int)
    requires
        step > 0,
    ensures
        phases_below(phase, step, limit).len() == (distance(phase, limit) + step - 1) / step,
    decreases distance(phase, limit),
{
    let d = distance(phase, limit);
    if phase < limit {
        lemma_phases_count(phase + step, step, limit);
        if phase + step < limit {
            lemma_hoist(d - 1, 1, step);
            assert(d - step + step - 1 == d - 1);
        } else {
            lemma_fundamental_div_mod_converse(d + step - 1, step, 1, d - 1);
            lemma_fundamental_div_mod_converse(step - 1, step, 0, step - 1);
        }
    } else {
        lemma_fundamental_div_mod_converse(step - 1, step, 0, step - 1);
    }
}

/// How many frames a call gives, whatever the rates: one for each step from the phase to the last
/// whole frame, a last step that is not whole included. Each is a pair for every channel.
pub proof fn law_frames_of_a_call(walk: Walk, carried: Carried, input: Seq<u32>)
    requires
        walk.channels > 0,
        walk.step > 0,
        walk.unit > 0,
    ensures
        ({
            let frames = (distance(carried.phase, walk.limit(carried.leftover + input)) + walk.step
                - 1) / walk.step;
            &&& walk.phases(carried, input).len() == frames
            &&& walk.weights(carried, input).len() == frames
            &&& walk.pairs(carried, input).len() == frames * walk.channels
        }),
{
    lemma_phases_count(carried.phase, walk.step, walk.limit(carried.leftover + input));
}

/// A new resampler that takes `n` whole frames in gives `n * unit / step` frames, rounded up,
/// whatever the rates.
pub proof fn law_frames_of_a_first_call(walk: Walk, input: Seq<u32>, n: nat)
    requires
        walk.channels > 0,
        walk.step > 0,
        walk.unit > 0,
        input.len() == n * walk.channels,
    ensures
        walk.phases(walk.fresh(), input).len() == (n * walk.unit + walk.step - 1) / walk.step,
        walk.pairs(walk.fresh(), input).len() == (n * walk.unit + walk.step - 1) / walk.step
            * walk.channels,
{
    let c = walk.channels as int;
    let samples = walk.fresh().leftover + input;
    assert(samples.len() == c * (n + 1)) by (nonlinear_arith)
        requires
            samples.len() == c + n * c,
    ;
    lemma_fundamental_div_mod_converse(samples.len() as int, c, n as int + 1, 0);
    assert(n * walk.unit >= 0) by (nonlinear_arith)
        requires
            walk.unit > 0,
    ;
    law_frames_of_a_call(walk, walk.fresh(), input);
}

/// Where the output rate is not above the input rate, it makes no difference in how many blocks
/// the `n` whole frames come in.
pub proof fn law_frames_of_a_stream(walk: Walk, blocks: Seq<Seq<u32>>, n: nat)
    requires
        walk.wf(),
        blocks.flatten().len() == n * walk.channels,
    ensures
        walk.weights_of_all(walk.fresh(), blocks).len() == (n * walk.unit + walk.step - 1)
            / walk.step,
        walk.pairs_of_all(walk.fresh(), blocks).len() == (n * walk.unit + walk.step - 1)
            / walk.step * walk.channels,
{
    law_any_blocks_are_one(walk, walk.fresh(), blocks);
    law_frames_of_a_first_call(walk, blocks.flatten(), n);
}

/// A call without input gives nothing and changes nothing.
pub proof fn law_no_input_changes_nothing(walk: Walk, carried: Carried)
    requires
        walk.wf(),
        walk.in_step(carried),
    ensures
        walk.pairs(carried, Seq::empty()).len() == 0,
        walk.weights(carried, Seq::empty()).len() == 0,
        walk.next(carried, Seq::empty()) == carried,
{
    let nothing = Seq::<u32>::empty();
    assert(carried.leftover + nothing =~= carried.leftover);
    let c = walk.channels as int;
    lemma_fundamental_div_mod_converse(
        carried.leftover.len() as int,
        c,
        1,
        carried.leftover.len() - c,
    );
    assert(0 * c == 0);
    assert(0 * walk.unit == 0);
    assert(walk.limit(carried.leftover) == 0);
    law_one_frame_is_carried(walk, carried, nothing);
    assert(walk.next(carried, nothing).leftover =~= carried.leftover);
}

/// How a stream is cut into two blocks makes no difference: neither to the pairs, nor to the
/// fractions they are interpolated at, nor to what is carried over in the end.
pub proof fn law_two_blocks_are_one(
    walk: Walk,
    carried: Carried,
    first: Seq<u32>,
    second: Seq<u32>,
)
    requires
        walk.wf(),
        walk.in_step(carried),
    ensures
        walk.pairs(carried, first + second) == walk.pairs(carried, first) + walk.pairs(
            walk.next(carried, first),
            second,
        ),
        walk.weights(carried, first + second) == walk.weights(carried, first) + walk.weights(
            walk.next(carried, first),
            second,
        ),
        walk.next(carried, first + second) == walk.next(walk.next(carried, first), second),
{
    let c = walk.channels as int;
    let u = walk.unit;
    let a = carried.leftover + first;
    let middle = walk.next(carried, first);
    let rest = middle.leftover + second;
    let whole = carried.leftover + (first + second);
    assert(whole =~= a + second);
    law_one_frame_is_carried(walk, carried, first);
    law_one_frame_is_carried(walk, middle, second);
    law_one_frame_is_carried(walk, carried, first + second);
    let e = walk.frames(a) - 1;
    // Frames and limits of the second call lie `e` frames before those of the whole.
    lemma_fundamental_div_mod(a.len() as int, c);
    assert((e + 1) * c == c * walk.frames(a) && (e + 1) * c == e * c + c) by (nonlinear_arith)
        requires
            e + 1 == walk.frames(a),
    ;
    assert(e >= 0) by (nonlinear_arith)
        requires
            a.len() >= c,
            a.len() == c * (e + 1) + a.len() as int % c,
            (a.len() as int % c) < c,
            c > 0,
    ;
    assert(e * c >= 0) by (nonlinear_arith)
        requires
            e >= 0,
            c > 0,
    ;
    assert(rest.len() == whole.len() - e * c);
    lemma_fundamental_div_mod(rest.len() as int, c);
    assert(whole.len() == c * (walk.frames(rest) + e) + rest.len() as int % c) by (nonlinear_arith)
        requires
            rest.len() == whole.len() - e * c,
            rest.len() == c * walk.frames(rest) + rest.len() as int % c,
    ;
    lemma_fundamental_div_mod_converse(
        whole.len() as int,
        c,
        walk.frames(rest) + e,
        rest.len() as int % c,
    );
    assert(walk.frames(whole) == walk.frames(rest) + e);
    assert(walk.limit(whole) == walk.limit(rest) + e * u) by (nonlinear_arith)
        requires
            walk.limit(whole) == (walk.frames(whole) - 1) * u,
            walk.limit(rest) == (walk.frames(rest) - 1) * u,
            walk.frames(whole) == walk.frames(rest) + e,
    ;
    assert(walk.limit(a) <= walk.limit(whole)) by (nonlinear_arith)
        requires
            walk.limit(a) == e * u,
            walk.limit(whole) == (walk.frames(whole) - 1) * u,
            walk.frames(rest) >= 1,
            walk.frames(whole) == walk.frames(rest) + e,
            u > 0,
    ;
    lemma_phases_join(carried.phase, walk.step, walk.limit(a), walk.limit(whole));
    lemma_phases_shift(middle.phase, walk.step, walk.limit(rest), e * u);
    let p1 = walk.phases(carried, first);
    let p2 = walk.phases(middle, second);
    assert(walk.phases(carried, first + second) == p1 + later(p2, e * u));
    assert(walk.end(carried, first + second) == walk.end(middle, second) + e * u);
    assert forall|i: int| 0 <= i < p2.len() implies {
        &&& (#[trigger] p2[i] + e * u) / u == p2[i] / u + e
        &&& (p2[i] + e * u) % u == p2[i] % u
    } by {
        lemma_hoist(p2[i], e, u);
    }
    assert(walk.positions(p1 + later(p2, e * u)) =~= walk.positions(p1) + later(
        walk.positions(p2),
        e,
    ));
    assert(walk.fractions(p1 + later(p2, e * u)) =~= walk.fractions(p1) + walk.fractions(p2));
    // The frames behind each position are there.
    lemma_frames_are_there(a, walk.channels, walk.positions(p1));
    lemma_frames_are_there(rest, walk.channels, walk.positions(p2));
    law_pairing_blocks_joins(
        a,
        second,
        walk.channels,
        e as nat,
        (walk.frames(rest) - 1) as nat,
        walk.positions(p1),
        walk.positions(p2),
    );
    let e2 = walk.frames(rest) - 1;
    assert((e + e2) * u == e * u + e2 * u) by (nonlinear_arith);
}

/// Whole parts hoist out of a division, and vanish from its remainder.
proof fn lemma_hoist(p: int, e: int, u: int)
    requires
        u > 0,
    ensures
        (p + e * u) / u == p / u + e,
        (p + e * u) % u == p % u,
{
    lemma_fundamental_div_mod(p, u);
    assert(p + e * u == u * (p / u + e) + p % u) by (nonlinear_arith)
        requires
            p == u * (p / u) + p % u,
    ;
    lemma_fundamental_div_mod_converse(p + e * u, u, p / u + e, p % u);
}

/// A position with a next frame has both frames among the samples.
proof fn lemma_frames_are_there(samples: Seq<u32>, channels: nat, positions: Seq<int>)
    requires
        channels > 0,
        forall|i: int|
            0 <= i < positions.len() ==> 0 <= #[trigger] positions[i] && positions[i] + 1
                < samples.len() / channels,
    ensures
        forall|i: int|
            0 <= i < positions.len() ==> (#[trigger] positions[i] + 2) * channels <= samples.len(),
{
    let c = channels as int;
    let frames = samples.len() as int / c;
    lemma_fundamental_div_mod(samples.len() as int, c);
    assert forall|i: int| 0 <= i < positions.len() implies (#[trigger] positions[i] + 2) * channels
        <= samples.len() by {
        let p = positions[i];
        assert((p + 2) * c <= c * frames) by (nonlinear_arith)
            requires
                p + 2 <= frames,
                c > 0,
        ;
    }
}

/// How a stream is cut into blocks makes no difference: any number of calls gives the pairs, the
/// fractions and the carried samples that one call with the whole stream gives.
pub proof fn law_any_blocks_are_one(walk: Walk, carried: Carried, blocks: Seq<Seq<u32>>)
    requires
        walk.wf(),
        walk.in_step(carried),
    ensures
        walk.pairs_of_all(carried, blocks) == walk.pairs(carried, blocks.flatten()),
        walk.weights_of_all(carried, blocks) == walk.weights(carried, blocks.flatten()),
        walk.next_of_all(carried, blocks) == walk.next(carried, blocks.flatten()),
    decreases blocks.len(),
{
    if blocks.len() == 0 {
        law_no_input_changes_nothing(walk, carried);
        assert(blocks.flatten() =~= Seq::<u32>::empty());
        assert(walk.pairs_of_all(carried, blocks) =~= walk.pairs(carried, blocks.flatten()));
        assert(walk.weights_of_all(carried, blocks) =~= walk.weights(carried, blocks.flatten()));
    } else {
        let front = blocks.drop_last();
        law_any_blocks_are_one(walk, carried, front);
        law_two_blocks_are_one(walk, carried, front.flatten(), blocks.last());
        lemma_flatten_last(blocks);
    }
}

/// The concatenation of blocks ends with the last block.
proof fn lemma_flatten_last(blocks: Seq<Seq<u32>>)
    requires
        blocks.len() > 0,
    ensures
        blocks.flatten() == blocks.drop_last().flatten() + blocks.last(),
    decreases blocks.len(),
{
    if blocks.len() == 1 {
        assert(blocks.drop_last() =~= Seq::<Seq<u32>>::empty());
        assert(blocks.drop_first() =~= Seq::<Seq<u32>>::empty());
        assert(blocks.flatten() =~= blocks.drop_last().flatten() + blocks.last());
    } else {
        lemma_flatten_last(blocks.drop_first());
        assert(blocks.drop_first().drop_last() =~= blocks.drop_last().drop_first());
        assert(blocks.drop_last().first() == blocks.first());
        assert(blocks.flatten() =~= blocks.drop_last().flatten() + blocks.last());
    }
}

/// Of samples that hold a whole frame, the last whole frame and the part of a frame behind it are
/// kept once all frames but one have been passed: less than two frames, from the end.
pub proof fn law_last_frame_is_kept(samples: Seq<u32>, channels: nat)
    requires
        0 < channels <= samples.len(),
    ensures
        ({
            let last = kept(samples, channels, (samples.len() / channels - 1) as nat);
            &&& channels <= last.len() < 2 * channels
            &&& last.is_suffix_of(samples)
        }),
{
    let c = channels as int;
    let frames = samples.len() as int / c;
    let part = samples.len() as int % c;
    lemma_fundamental_div_mod(samples.len() as int, c);
    assert(frames >= 1) by (nonlinear_arith)
        requires
            samples.len() >= c,
            samples.len() == c * frames + part,
            part < c,
            c > 0,
    ;
    assert((frames - 1) * c == c * frames - c) by (nonlinear_arith);
}

/// Where the positions are all frames in order, the first samples of the pairs are the samples
/// themselves.
pub proof fn law_every_frame_gives_the_samples(samples: Seq<u32>, channels: nat, n: nat)
    requires
        channels > 0,
        n * channels <= samples.len(),
    ensures
        firsts(pairs_at(samples, channels, Seq::new(n, |i: int| i))) == samples.take(
            (n * channels) as int,
        ),
{
    let c = channels as int;
    let positions = Seq::new(n, |i: int| i);
    let left = firsts(pairs_at(samples, channels, positions));
    assert forall|k: int| 0 <= k < left.len() implies left[k] == samples[k] by {
        let q = k / c;
        let r = k % c;
        lemma_fundamental_div_mod(k, c);
        assert(0 <= q < n && q * c == c * q) by (nonlinear_arith)
            requires
                0 <= k < n * c,
                k == c * q + r,
                0 <= r < c,
        ;
        assert(positions[q] == q);
    }
    assert(left =~= samples.take((n * channels) as int));
}

/// Where the positions are all frames in order, the second samples of the pairs are the samples one
/// frame later.
pub proof fn law_every_frame_gives_the_next_samples(samples: Seq<u32>, channels: nat, n: nat)
    requires
        channels > 0,
        (n + 1) * channels <= samples.len(),
    ensures
        ({
            let pairs = pairs_at(samples, channels, Seq::new(n, |i: int| i));
            &&& pairs.len() == n * channels
            &&& Seq::new(pairs.len(), |k: int| pairs[k].1) == samples.subrange(
                channels as int,
                ((n + 1) * channels) as int,
            )
        }),
{
    let c = channels as int;
    let positions = Seq::new(n, |i: int| i);
    let pairs = pairs_at(samples, channels, positions);
    let left = Seq::new(pairs.len(), |k: int| pairs[k].1);
    assert((n + 1) * c == n * c + c) by (nonlinear_arith);
    assert forall|k: int| 0 <= k < left.len() implies left[k] == samples[k + c] by {
        let q = k / c;
        let r = k % c;
        lemma_fundamental_div_mod(k, c);
        assert(0 <= q < n && q * c == c * q) by (nonlinear_arith)
            requires
                0 <= k < n * c,
                k == c * q + r,
                0 <= r < c,
        ;
        assert(positions[q] == q);
    }
    assert(left =~= samples.subrange(c, (n + 1) * c));
}

/// A pair holds the samples of its channel on both sides of its position, whatever they are: that
/// of the frame at the position first, that of the next frame second. There is one pair for each
/// position and channel.
pub proof fn law_pairs_hold_both_sides(
    samples: Seq<u32>,
    channels: nat,
    positions: Seq<int>,
    i: int,
    channel: int,
)
    requires
        0 <= i < positions.len(),
        0 <= channel < channels,
    ensures
        ({
            let pairs = pairs_at(samples, channels, positions);
            let pair = pairs[i * channels + channel];
            &&& pairs.len() == positions.len() * channels
            &&& 0 <= i * channels + channel < pairs.len()
            &&& pair.0 == samples[positions[i] * channels + channel]
            &&& pair.1 == samples[(positions[i] + 1) * channels + channel]
        }),
{
    let c = channels as int;
    let k = i * c + channel;
    assert(k == c * i + channel && 0 <= k < positions.len() * c) by (nonlinear_arith)
        requires
            k == i * c + channel,
            0 <= i < positions.len(),
            0 <= channel < c,
    ;
    lemma_fundamental_div_mod_converse(k, c, i, channel);
    assert((positions[i] + 1) * c == positions[i] * c + c) by (nonlinear_arith);
}

/// Positions are taken as they are.
pub proof fn law_positions_are_taken_as_they_are(positions: Seq<usize>)
    ensures
        frame_numbers(positions).len() == positions.len(),
        forall|i: int|
            0 <= i < positions.len() ==> #[trigger] frame_numbers(positions)[i] == positions[i],
{
}

/// A resampler works on what it kept and then on what comes in, on each sample once, and counts
/// the whole frames of both.
pub proof fn law_input_follows_what_was_kept(resampler: StreamResampler, input: Seq<u32>)
    requires
        resampler.channels > 0,
    ensures
        ({
            let samples = resampler.combined(input);
            let kept = resampler.leftover@;
            let frames = resampler.frames_with(input);
            &&& samples.len() == kept.len() + input.len()
            &&& samples.take(kept.len() as int) == kept
            &&& samples.skip(kept.len() as int) == input
            &&& frames * resampler.channels <= kept.len() + input.len()
            &&& kept.len() + input.len() < (frames + 1) * resampler.channels
        }),
{
    let samples = resampler.combined(input);
    let c = resampler.channels as int;
    let frames = resampler.frames_with(input) as int;
    lemma_fundamental_div_mod(samples.len() as int, c);
    assert(frames * c == c * frames && (frames + 1) * c == c * frames + c) by (nonlinear_arith);
    assert(samples.take(resampler.leftover@.len() as int) =~= resampler.leftover@);
    assert(samples.skip(resampler.leftover@.len() as int) =~= input);
}

/// A resampler that passed all its samples keeps one frame, and that is silent.
pub proof fn law_one_silent_frame_is_kept_of_nothing(
    samples: Seq<u32>,
    channels: nat,
    frames: nat,
)
    requires
        frames * channels >= samples.len(),
    ensures
        kept(samples, channels, frames).len() == channels,
        forall|i: int| 0 <= i < channels ==> #[trigger] kept(samples, channels, frames)[i] == 0,
{
}

/// The setup of a resampler is its rates and its channels.
pub proof fn law_setup_of_a_resampler(a: StreamResampler, b: StreamResampler)
    ensures
        a.same_setup(b) <==> (a.input_rate, a.output_rate, a.channels) == (
            b.input_rate,
            b.output_rate,
            b.channels,
        ),
{
}

/// With a step of one frame, the phases are the frames.
proof fn lemma_phases_of_whole_steps(from: int, to: int, unit: int)
    requires
        unit > 0,
        from <= to,
    ensures
        phases_below(from * unit, unit, to * unit) == Seq::new(
            (to - from) as nat,
            |i: int| (from + i) * unit,
        ),
        first_phase_from(from * unit, unit, to * unit) == to * unit,
    decreases to - from,
{
    let phases = phases_below(from * unit, unit, to * unit);
    let expected = Seq::new((to - from) as nat, |i: int| (from + i) * unit);
    if from < to {
        lemma_phases_of_whole_steps(from + 1, to, unit);
        assert(from * unit < to * unit && from * unit + unit == (from + 1) * unit)
            by (nonlinear_arith)
            requires
                from < to,
                unit > 0,
        ;
        let tail = Seq::new((to - from - 1) as nat, |i: int| (from + 1 + i) * unit);
        assert(phases == seq![from * unit] + tail);
        assert forall|i: int| 0 <= i < expected.len() implies phases[i] == expected[i] by {
            if i > 0 {
                assert(phases[i] == tail[i - 1]);
                assert(from + 1 + (i - 1) == from + i);
            }
        }
    }
    assert(phases =~= expected);
}

/// At equal rates every sample comes out as it came in, one frame later: a call gives the samples
/// up to its last whole frame, all at the fraction zero, and carries the last frame over. Where
/// whole frames come in, as many samples come out.
pub proof fn law_equal_rates_delay_by_one_frame(walk: Walk, carried: Carried, input: Seq<u32>)
    requires
        walk.wf(),
        walk.step == walk.unit,
        walk.in_step(carried),
        carried.phase == 0,
    ensures
        ({
            let samples = carried.leftover + input;
            let passed = (walk.frames(samples) - 1) * walk.channels;
            &&& firsts(walk.pairs(carried, input)) == samples.take(passed)
            &&& walk.next(carried, input) == (Carried { leftover: samples.skip(passed), phase: 0 })
            &&& forall|i: int|
                0 <= i < walk.weights(carried, input).len() ==> #[trigger] walk.weights(
                    carried,
                    input,
                )[i] == 0
            &&& carried.leftover.len() == walk.channels && input.len() % walk.channels == 0
                ==> passed == input.len()
        }),
{
    let samples = carried.leftover + input;
    let c = walk.channels as int;
    let u = walk.unit;
    let n = walk.frames(samples) - 1;
    law_one_frame_is_carried(walk, carried, input);
    lemma_fundamental_div_mod(samples.len() as int, c);
    let part = samples.len() as int % c;
    assert(n >= 0) by (nonlinear_arith)
        requires
            samples.len() >= c,
            samples.len() == c * (n + 1) + part,
            part < c,
            c > 0,
    ;
    assert(n * c + c == c * (n + 1)) by (nonlinear_arith);
    lemma_phases_of_whole_steps(0, n, u);
    let phases = walk.phases(carried, input);
    assert forall|i: int| 0 <= i < phases.len() implies {
        &&& #[trigger] phases[i] / u == i
        &&& phases[i] % u == 0
    } by {
        assert(phases[i] == u * i) by (nonlinear_arith)
            requires
                phases[i] == (0 + i) * u,
        ;
        lemma_fundamental_div_mod_converse(phases[i], u, i, 0);
    }
    assert(walk.positions(phases) =~= Seq::new(n as nat, |i: int| i));
    law_every_frame_gives_the_samples(samples, walk.channels, n as nat);
    if carried.leftover.len() == c && input.len() as int % c == 0 {
        lemma_fundamental_div_mod(input.len() as int, c);
        let q = input.len() as int / c;
        assert(samples.len() == c * (q + 1)) by (nonlinear_arith)
            requires
                samples.len() == c + c * q,
        ;
        lemma_fundamental_div_mod_converse(samples.len() as int, c, q + 1, 0);
        assert(q * c == c * q) by (nonlinear_arith);
    }
}

/// At equal rates a new resampler gives the stream behind one silent frame, however the stream is
/// cut into blocks: one frame of delay, and nothing lost but the frames that are still carried.
pub proof fn law_equal_rates_delay_the_stream_by_one_frame(walk: Walk, blocks: Seq<Seq<u32>>)
    requires
        walk.wf(),
        walk.step == walk.unit,
    ensures
        ({
            let stream = blocks.flatten();
            let delayed = silence(walk.channels) + stream;
            let passed = (walk.frames(delayed) - 1) * walk.channels;
            &&& firsts(walk.pairs_of_all(walk.fresh(), blocks)) == delayed.take(passed)
            &&& walk.next_of_all(walk.fresh(), blocks) == (Carried {
                leftover: delayed.skip(passed),
                phase: 0,
            })
            &&& forall|i: int|
                0 <= i < walk.weights_of_all(walk.fresh(), blocks).len()
                    ==> #[trigger] walk.weights_of_all(walk.fresh(), blocks)[i] == 0
            &&& stream.len() % walk.channels == 0 ==> passed == stream.len()
        }),
{
    law_any_blocks_are_one(walk, walk.fresh(), blocks);
    law_equal_rates_delay_by_one_frame(walk, walk.fresh(), blocks.flatten());
}

/// A new resampler is in step, and a sequence of calls leaves it so: what is carried never grows.
pub proof fn law_carried_never_grows(walk: Walk, blocks: Seq<Seq<u32>>)
    requires
        walk.wf(),
    ensures
        walk.in_step(walk.fresh()),
        walk.in_step(walk.next_of_all(walk.fresh(), blocks)),
    decreases blocks.len(),
{
    if blocks.len() > 0 {
        law_carried_never_grows(walk, blocks.drop_last());
        law_one_frame_is_carried(
            walk,
            walk.next_of_all(walk.fresh(), blocks.drop_last()),
            blocks.last(),
        );
    }
}

} // verus!
