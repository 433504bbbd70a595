//! Checking the latency compensation against the real hardware, with a number instead of an opinion.
//!
//! With a loopback cable in place the engine records its own click, and the recorded click has to
//! sit on the beat grid of the loop buffer. Where it does not, the distance is the error of the
//! compensation value - signed, in samples.
//!
//! # Why the deviation is exactly the correction, and why the sign is `+`
//!
//! An input sample arriving at input index `k` is stored at musical position `m = k - R`, where `R`
//! is the compensation. Let `R_true` be what the hardware actually does. The click for beat `B`
//! leaves the engine at output position `B`, comes back at input index `B + R_true`, and is
//! therefore stored at `m = B + (R_true - R)`. So the signed deviation `d = m - B` is precisely the
//! amount `R` is off by, and the corrected value is `R + d`. Read as a sentence: the click landed
//! late in the loop because the engine subtracted too little.
use vstd::prelude::*;
use vstd::string::*;
use crate::audio::DeviceOpts;
use crate::limits::one_decimal;
use crate::metro::{tone_of, Metronome};
use crate::model::MAX_LATENCY;
use crate::rounding::{divide_rounded, quotient_rounded};
use crate::schedule::{grid, push_quoted, quoted, regridded, Scheduler};
use crate::single::{the_larger_is_not_below_either, Single};
use crate::text::{
    decimal,
    holds,
    join,
    joined,
    push_decimal,
    stands_at,
    texts,
};
use crate::timeline::{
    a_beat_has_a_length,
    a_beat_is_what_lies_between_two_starts,
    a_position_lies_in_its_beat,
    beats_are_strictly_ordered,
    beats_follow_positions,
    earlier_beats_are_reached,
    every_beat_is_within_half_a_sample,
    the_first_beat_is_at_zero,
    Bpm,
    TimeSignature,
    Timeline,
    MAX_BEAT,
};

verus! {

/// Deviation up to this many samples is inside the residual error of the onset detection.
pub const GOOD_ENOUGH_SAMPLES: u32 = 10;

/// Noise floor above this level means the loopback is far too hot or feeding back: the number 0.1.
pub const MAX_NOISE_PEAK: u32 = 0x3dcc_cccd;

/// The click peaks at one half before the cable attenuates it, so a threshold beyond this could
/// never be reached: the number 0.2.
pub const MAX_THRESHOLD: u32 = 0x3e4c_cccd;

/// More clicks than all runs of a measurement can expect together.
pub const MOST_CLICKS: u128 = 0x1_0000_0000_0000_0000_0000_0000;

// ---------------------------------------------------------------------------------------------
// Onsets
// ---------------------------------------------------------------------------------------------

/// Whether a sample stands out of the noise.
pub open spec fn loud(sample: u32, threshold: Single) -> bool {
    threshold.lt((Single { bits: sample }).unsigned())
}

/// The onsets among the first `n` samples: a loud sample is one unless it lies within the blanking
/// time of the one before, so the body of one click is not counted several times.
pub open spec fn onsets(buf: Seq<u32>, threshold: Single, blanking: u64, n: int) -> Seq<u64>
    decreases n,
{
    if n <= 0 {
        Seq::empty()
    } else {
        let before = onsets(buf, threshold, blanking, n - 1);
        if (before.len() == 0 || before.last() + blanking <= n - 1) && loud(buf[n - 1], threshold) {
            before.push((n - 1) as u64)
        } else {
            before
        }
    }
}

/// Onset positions, as offsets into a buffer, of everything crossing a threshold.
pub fn detect_onsets(buf: &[u32], threshold: Single, blanking: u64) -> (r: Vec<u64>)
    requires
        buf@.len() + blanking <= u64::MAX,
    ensures
        r@ == onsets(buf@, threshold, blanking, buf@.len() as int),
{
    let mut r: Vec<u64> = Vec::new();
    let mut blocked_until: u64 = 0;
    let len: usize = buf.len();
    let mut i: usize = 0;
    assert(r@ =~= onsets(buf@, threshold, blanking, 0));
    while i < len
        invariant
            len == buf@.len(),
            buf@.len() + blanking <= u64::MAX,
            i <= len,
            r@ == onsets(buf@, threshold, blanking, i as int),
            r@.len() == 0 ==> blocked_until == 0,
            r@.len() > 0 ==> blocked_until == r@.last() + blanking,
        decreases len - i,
    {
        if i as u64 >= blocked_until && threshold.below((Single { bits: buf[i] }).abs()) {
            r.push(i as u64);
            blocked_until = i as u64 + blanking;
        }
        i = i + 1;
    }
    r
}

// ---------------------------------------------------------------------------------------------
// The beat grid
// ---------------------------------------------------------------------------------------------

/// The beat closest to a position, and how far away it is.
#[derive(Clone, Copy, Debug, PartialEq, Eq, Structural)]
pub struct Nearest {
    pub beat: u64,
    pub distance: u64,
    /// The position lies before the beat.
    pub early: bool,
}

impl Nearest {
    /// The signed distance: positive where the position is later than the beat.
    pub open spec fn deviation(self) -> int {
        if self.early {
            -(self.distance as int)
        } else {
            self.distance as int
        }
    }
}

pub open spec fn nearest(t: Timeline, pos: int) -> Nearest {
    let beat = t.beat_of(pos);
    let before = t.beat_at(beat);
    let after = t.beat_at(beat + 1);
    if pos - before <= after - pos {
        Nearest { beat: beat as u64, distance: (pos - before) as u64, early: false }
    } else {
        Nearest { beat: (beat + 1) as u64, distance: (after - pos) as u64, early: true }
    }
}

/// Beat boundary closest to a position, plus the distance to it.
pub fn nearest_beat(timeline: &Timeline, pos: u64) -> (r: Nearest)
    requires
        pos < MAX_BEAT,
        timeline.reaches(timeline.beat_of(pos as int) + 1),
    ensures
        r == nearest(*timeline, pos as int),
{
    let beat: u64 = timeline.beat_index_at(pos);
    proof {
        use_type_invariant(timeline);
        a_position_lies_in_its_beat(*timeline, pos as int);
    }
    let before: u64 = timeline.beat_start(beat);
    let after: u64 = timeline.beat_start(beat + 1);
    if pos - before <= after - pos {
        Nearest { beat, distance: pos - before, early: false }
    } else {
        Nearest { beat: beat + 1, distance: after - pos, early: true }
    }
}

/// The first beat that does not start before a position.
pub open spec fn first_covered(t: Timeline, origin: int) -> int {
    if t.beat_at(t.beat_of(origin)) < origin {
        t.beat_of(origin) + 1
    } else {
        t.beat_of(origin)
    }
}

/// The first beat that starts at a position or behind it, where `end` is not the first position.
pub open spec fn past_covered(t: Timeline, end: int) -> int {
    t.beat_of(end - 1) + 1
}

/// What the onsets of a loop say: the beats they were matched to, their deviations, and how many
/// belong to no beat.
#[verifier::ext_equal]
pub struct Tally {
    pub hits: Seq<u64>,
    pub deviations: Seq<i64>,
    pub spurious: nat,
}

/// The tally of the first `n` onsets. An onset further from a beat than a quarter of one is not a
/// mistimed click but something else entirely; so is a second one on the same beat.
pub open spec fn tally(
    t: Timeline,
    origin: int,
    first: int,
    past: int,
    found: Seq<u64>,
    n: int,
) -> Tally
    decreases n,
{
    if n <= 0 {
        Tally { hits: Seq::empty(), deviations: Seq::empty(), spurious: 0 }
    } else {
        let before = tally(t, origin, first, past, found, n - 1);
        let near = nearest(t, origin + found[n - 1]);
        if near.beat < first || near.beat >= past || t.beyond_a_quarter(near.distance as int)
            || before.hits.contains(near.beat) {
            Tally { spurious: before.spurious + 1, ..before }
        } else {
            Tally {
                hits: before.hits.push(near.beat),
                deviations: before.deviations.push(near.deviation() as i64),
                ..before
            }
        }
    }
}

/// The largest magnitude of some samples. What is not a number counts as silence.
pub open spec fn peak_of(buf: Seq<u32>, n: int) -> Single
    decreases n,
{
    if n <= 0 {
        Single { bits: 0 }
    } else {
        peak_of(buf, n - 1).larger((Single { bits: buf[n - 1] }).unsigned())
    }
}

/// What one recorded loop says about the compensation value.
#[derive(Debug)]
pub struct ClickAnalysis {
    /// Beat boundaries inside the loop: the number of clicks that must be found.
    pub expected: usize,
    /// Beat boundaries an onset was matched to.
    pub matched: usize,
    /// Onsets that belong to no beat boundary, or a second onset on one that already had a match.
    pub spurious: usize,
    /// Signed distance of every matched onset from its beat boundary, in samples. Positive means the
    /// click landed late in the loop.
    pub deviations: Vec<i64>,
    /// Peak of the analysed buffer, for the "is there anything in there at all" question.
    pub peak: Single,
}

/// The sum of some deviations.
pub open spec fn total(deviations: Seq<i64>) -> int
    decreases deviations.len(),
{
    if deviations.len() == 0 {
        0
    } else {
        total(deviations.drop_last()) + deviations.last()
    }
}

/// A mean, as a sum and the number of what was added up.
#[derive(Clone, Copy, Debug, PartialEq, Eq, Structural)]
pub struct Mean {
    pub sum: i128,
    pub count: u64,
}

/// The mean of some deviations, or None where there is none.
pub fn mean_of(deviations: &Vec<i64>) -> (r: Option<Mean>)
    ensures
        match r {
            Some(mean) => deviations@.len() > 0 && mean.sum == total(deviations@) && mean.count
                == deviations@.len(),
            None => deviations@.len() == 0,
        },
{
    if deviations.len() == 0 {
        return None;
    }
    let mut sum: i128 = 0;
    let mut i: usize = 0;
    while i < deviations.len()
        invariant
            i <= deviations.len(),
            sum == total(deviations@.subrange(0, i as int)),
            -0x8000_0000_0000_0000 * i <= sum <= 0x8000_0000_0000_0000 * i,
        decreases deviations.len() - i,
    {
        let ghost now = deviations@.subrange(0, i + 1);
        assert(now.drop_last() =~= deviations@.subrange(0, i as int));
        assert(now.last() == deviations@[i as int]);
        assert(0x8000_0000_0000_0000 * i <= 0x8000_0000_0000_0000 * 0xffff_ffff_ffff_ffff);
        sum = sum + deviations[i] as i128;
        i = i + 1;
    }
    assert(deviations@.subrange(0, i as int) =~= deviations@);
    Some(Mean { sum, count: deviations.len() as u64 })
}

/// Whether enough clicks were found to say anything: at least nine in ten, and not none of none.
pub open spec fn enough(matched: int, expected: int) -> bool {
    expected > 0 && 10 * matched >= 9 * expected
}

fn is_enough(matched: u64, expected: u128) -> (r: bool)
    requires
        expected <= MOST_CLICKS,
    ensures
        r == enough(matched as int, expected as int),
{
    expected > 0 && 10 * matched as u128 >= 9 * expected
}

impl ClickAnalysis {
    /// Mean deviation, or None when nothing was detected. The recommendation is built on this, so an
    /// empty loop can never produce one.
    pub fn mean(&self) -> (r: Option<Mean>)
        ensures
            match r {
                Some(mean) => self.deviations@.len() > 0 && mean.sum == total(self.deviations@)
                    && mean.count == self.deviations@.len(),
                None => self.deviations@.len() == 0,
            },
    {
        mean_of(&self.deviations)
    }

    /// Whether the result may be read as a statement about the latency at all. Too few detections is
    /// a finding in its own right, never a pass.
    pub fn conclusive(&self) -> (r: bool)
        ensures
            r == enough(self.matched as int, self.expected as int),
    {
        is_enough(self.matched as u64, self.expected as u128)
    }
}

proof fn lemma_covered(t: Timeline, origin: int, end: int)
    requires
        t.wf(),
        0 <= origin < end,
    ensures
        0 <= first_covered(t, origin) <= past_covered(t, end),
        t.beat_at(first_covered(t, origin)) >= origin,
        t.beat_at(past_covered(t, end)) >= end,
        past_covered(t, end) - first_covered(t, origin) <= end - origin,
        past_covered(t, end) <= t.beat_of(end) + 1,
{
    a_position_lies_in_its_beat(t, origin);
    a_position_lies_in_its_beat(t, end - 1);
    beats_follow_positions(t, origin, end - 1);
    beats_follow_positions(t, end - 1, end);
    let first = first_covered(t, origin);
    let past = past_covered(t, end);
    if first < past - 1 {
        lemma_spread(t, first, past - 1);
    }
}

proof fn lemma_spread(t: Timeline, a: int, b: int)
    requires
        t.wf(),
        a <= b,
    ensures
        t.beat_at(b) - t.beat_at(a) >= b - a,
    decreases b - a,
{
    if a < b {
        lemma_spread(t, a, b - 1);
        beats_are_strictly_ordered(t, b - 1, b);
    }
}

/// How many beats a stretch covers, and the first of them and the first behind them.
fn count_beats(timeline: &Timeline, origin: u64, end: u64) -> (r: (u64, u64))
    requires
        origin < end < MAX_BEAT,
        timeline.reaches(timeline.beat_of(end as int) + 1),
    ensures
        r.0 == first_covered(*timeline, origin as int),
        r.1 == past_covered(*timeline, end as int),
        r.0 <= r.1,
        r.1 - r.0 <= end - origin,
{
    proof {
        use_type_invariant(timeline);
        lemma_covered(*timeline, origin as int, end as int);
        a_position_lies_in_its_beat(*timeline, origin as int);
        a_position_lies_in_its_beat(*timeline, end - 1);
        beats_follow_positions(*timeline, origin as int, end as int);
        earlier_beats_are_reached(
            *timeline,
            timeline.beat_of(origin as int),
            timeline.beat_of(end as int) + 1,
        );
    }
    let here: u64 = timeline.beat_index_at(origin);
    let first: u64 = if timeline.beat_start(here) < origin {
        here + 1
    } else {
        here
    };
    let mut past: u64 = first;
    loop
        invariant
            origin < end < MAX_BEAT,
            timeline.wf(),
            timeline.reaches(timeline.beat_of(end as int) + 1),
            first == first_covered(*timeline, origin as int),
            first <= past <= past_covered(*timeline, end as int),
            past_covered(*timeline, end as int) <= timeline.beat_of(end as int) + 1,
            timeline.beat_of(end as int) < MAX_BEAT,
        ensures
            first <= past <= past_covered(*timeline, end as int),
            timeline.beat_at(past as int) >= end,
        decreases past_covered(*timeline, end as int) - past,
    {
        proof {
            earlier_beats_are_reached(
                *timeline,
                past as int,
                timeline.beat_of(end as int) + 1,
            );
        }
        if timeline.beat_start(past) >= end {
            break;
        }
        proof {
            lemma_covered(*timeline, origin as int, end as int);
        }
        past = past + 1;
    }
    proof {
        let last = timeline.beat_of(end - 1);
        a_position_lies_in_its_beat(*timeline, end - 1);
        if past <= last {
            lemma_spread(*timeline, past as int, last);
        }
    }
    (first, past)
}

/// What the window of a loop has to be for it to be analysed.
pub open spec fn countable(t: Timeline, origin: u64, len: nat) -> bool {
    &&& origin + len < MAX_BEAT
    &&& t.reaches(t.beat_of(origin + len) + 1)
}

/// Whether an analysis says what a loop holds.
pub open spec fn analysed(
    r: ClickAnalysis,
    buf: Seq<u32>,
    origin: u64,
    t: Timeline,
    threshold: Single,
    blanking: u64,
) -> bool {
    let end = origin + buf.len();
    let first = first_covered(t, origin as int);
    let past = past_covered(t, end);
    let found = onsets(buf, threshold, blanking, buf.len() as int);
    let all = tally(t, origin as int, first, past, found, found.len() as int);
    &&& r.peak == peak_of(buf, buf.len() as int)
    &&& buf.len() == 0 ==> r.expected == 0 && r.matched == 0 && r.spurious == 0 && r.deviations@
        == Seq::<i64>::empty()
    &&& buf.len() > 0 ==> {
        &&& r.expected == past - first
        &&& r.matched == all.hits.len()
        &&& r.spurious == all.spurious
        &&& r.deviations@ == all.deviations
    }
}

fn loudest(buf: &[u32]) -> (r: Single)
    ensures
        r == peak_of(buf@, buf@.len() as int),
{
    let mut peak = Single { bits: 0 };
    let len: usize = buf.len();
    let mut i: usize = 0;
    while i < len
        invariant
            len == buf@.len(),
            i <= len,
            peak == peak_of(buf@, i as int),
        decreases len - i,
    {
        peak = peak.max((Single { bits: buf[i] }).abs());
        i = i + 1;
    }
    peak
}

fn is_hit(hits: &Vec<u64>, beat: u64) -> (r: bool)
    ensures
        r == hits@.contains(beat),
{
    let mut i: usize = 0;
    while i < hits.len()
        invariant
            i <= hits.len(),
            forall|j: int| 0 <= j < i ==> hits@[j] != beat,
        decreases hits.len() - i,
    {
        if hits[i] == beat {
            return true;
        }
        i = i + 1;
    }
    false
}

proof fn lemma_onsets_lie_inside(buf: Seq<u32>, threshold: Single, blanking: u64, n: int, i: int)
    requires
        0 <= n <= u64::MAX,
        0 <= i < onsets(buf, threshold, blanking, n).len(),
    ensures
        onsets(buf, threshold, blanking, n)[i] < n,
        onsets(buf, threshold, blanking, n).len() <= n,
    decreases n,
{
    let before = onsets(buf, threshold, blanking, n - 1);
    if i < before.len() {
        lemma_onsets_lie_inside(buf, threshold, blanking, n - 1, i);
    } else if before.len() > 0 {
        lemma_onsets_lie_inside(buf, threshold, blanking, n - 1, 0);
    }
}

/// Compare the clicks in a recorded loop against the beat grid they should sit on.
///
/// `origin` is the musical position of the first sample, the position recording started at. Where
/// the deviation is negative, the click of the first beat lands just before the buffer and cannot be
/// found - visible in the counts, harmless for the mean.
pub fn analyse_loop(
    buf: &[u32],
    origin: u64,
    timeline: &Timeline,
    threshold: Single,
    blanking: u64,
) -> (r: ClickAnalysis)
    requires
        buf@.len() + blanking <= u64::MAX,
        countable(*timeline, origin, buf@.len()),
    ensures
        analysed(r, buf@, origin, *timeline, threshold, blanking),
{
    let peak: Single = loudest(buf);
    let mut deviations: Vec<i64> = Vec::new();
    let len: usize = buf.len();
    if len == 0 {
        assert(deviations@ =~= Seq::<i64>::empty());
        return ClickAnalysis { expected: 0, matched: 0, spurious: 0, deviations, peak };
    }
    let end: u64 = origin + len as u64;
    let (first, past) = count_beats(timeline, origin, end);
    let found: Vec<u64> = detect_onsets(buf, threshold, blanking);
    let mut hits: Vec<u64> = Vec::new();
    let mut spurious: usize = 0;
    let mut i: usize = 0;
    let ghost whole = Tally { hits: hits@, deviations: deviations@, spurious: 0 };
    assert(whole =~= tally(
        *timeline,
        origin as int,
        first as int,
        past as int,
        found@,
        0,
    ));
    while i < found.len()
        invariant
            len == buf@.len(),
            end == origin + len,
            countable(*timeline, origin, buf@.len()),
            found@ == onsets(buf@, threshold, blanking, buf@.len() as int),
            i <= found.len(),
            spurious <= i,
            ({
                let all = tally(
                    *timeline,
                    origin as int,
                    first as int,
                    past as int,
                    found@,
                    i as int,
                );
                &&& hits@ == all.hits
                &&& deviations@ == all.deviations
                &&& spurious == all.spurious
            }),
        decreases found.len() - i,
    {
        proof {
            lemma_onsets_lie_inside(buf@, threshold, blanking, buf@.len() as int, i as int);
        }
        let pos: u64 = origin + found[i];
        proof {
            use_type_invariant(timeline);
            a_position_lies_in_its_beat(*timeline, pos as int);
            beats_follow_positions(*timeline, pos as int, end as int);
            earlier_beats_are_reached(
                *timeline,
                timeline.beat_of(pos as int) + 1,
                timeline.beat_of(end as int) + 1,
            );
        }
        let near: Nearest = nearest_beat(timeline, pos);
        if near.beat < first || near.beat >= past || timeline.is_beyond_a_quarter(near.distance)
            || is_hit(&hits, near.beat) {
            spurious = spurious + 1;
        } else {
            hits.push(near.beat);
            let deviation: i64 = if near.early {
                -(near.distance as i64)
            } else {
                near.distance as i64
            };
            deviations.push(deviation);
        }
        i = i + 1;
    }
    ClickAnalysis {
        expected: (past - first) as usize,
        matched: hits.len(),
        spurious,
        deviations,
        peak,
    }
}

// ---------------------------------------------------------------------------------------------
// What a measurement comes to
// ---------------------------------------------------------------------------------------------

/// The magnitude of a mean in tenths, as double-precision arithmetic computes it.
pub open spec fn tenths_of(mean: Mean) -> nat {
    let magnitude = if mean.sum < 0 {
        -mean.sum
    } else {
        mean.sum as int
    };
    quotient_rounded(magnitude as nat, mean.count as nat, 10) as nat
}

/// Whether a mean can be written down: there is something to divide by, and the sum is exact.
pub open spec fn printable(mean: Mean) -> bool {
    0 < mean.count <= u32::MAX && -0x10_0000_0000_0000 < mean.sum < 0x10_0000_0000_0000
}

/// German one-liner classifying a mean deviation.
pub open spec fn verdict_text(mean: Mean) -> Seq<char> {
    let shown = one_decimal(tenths_of(mean));
    if -(GOOD_ENOUGH_SAMPLES * mean.count) <= mean.sum <= GOOD_ENOUGH_SAMPLES * mean.count {
        "Die mittlere Abweichung liegt mit "@ + (if mean.sum < 0 {
            "-"@
        } else {
            ""@
        }) + shown
            + " Samples im Rahmen der Impulsdetektion (Grenze 10 Samples). Der eingestellte Wert passt."@
    } else if mean.sum > 0 {
        "Der aufgenommene Klick sitzt im Mittel "@ + shown
            + " Samples ZU SPAET im Loop. Die Kompensation zieht zu wenig ab, der Wert muss groesser werden."@
    } else {
        "Der aufgenommene Klick sitzt im Mittel "@ + shown
            + " Samples ZU FRUEH im Loop. Die Kompensation zieht zu viel ab, der Wert muss kleiner werden."@
    }
}

pub fn verdict(mean: &Mean) -> (r: String)
    requires
        printable(*mean),
    ensures
        r@ == verdict_text(*mean),
{
    let magnitude: u64 = if mean.sum < 0 {
        (-mean.sum) as u64
    } else {
        mean.sum as u64
    };
    let tenths: u64 = divide_rounded(magnitude, mean.count as u32, 10);
    let mut r = String::new();
    let close: bool = magnitude <= 10 * mean.count;
    if close {
        r.append("Die mittlere Abweichung liegt mit ");
        r.append(
            if mean.sum < 0 {
                "-"
            } else {
                ""
            },
        );
    } else {
        r.append("Der aufgenommene Klick sitzt im Mittel ");
    }
    push_decimal(&mut r, tenths / 10);
    r.append(".");
    r.push((48u8 + (tenths % 10) as u8) as char);
    r.append(
        if close {
            " Samples im Rahmen der Impulsdetektion (Grenze 10 Samples). Der eingestellte Wert passt."
        } else if mean.sum > 0 {
            " Samples ZU SPAET im Loop. Die Kompensation zieht zu wenig ab, der Wert muss groesser werden."
        } else {
            " Samples ZU FRUEH im Loop. Die Kompensation zieht zu viel ab, der Wert muss kleiner werden."
        },
    );
    assert(r@ =~= verdict_text(*mean));
    r
}

/// The corrected compensation: the value in use plus the mean deviation, rounded, and never negative.
pub open spec fn corrected(latency: int, sum: int, count: int) -> int {
    let n = latency * count + sum;
    if n <= 0 {
        0
    } else {
        (2 * n + count) / (2 * count)
    }
}

pub fn recommend(latency: u64, mean: &Mean) -> (r: u64)
    requires
        printable(*mean),
        latency <= MAX_LATENCY,
    ensures
        r == corrected(latency as int, mean.sum as int, mean.count as int),
{
    assert(0 <= latency * mean.count <= 0x7fff_ffff_ffff_ffff * 0xffff_ffff) by (nonlinear_arith)
        requires
            0 <= latency <= 0x7fff_ffff_ffff_ffff,
            0 <= mean.count <= 0xffff_ffff,
    ;
    let count: i128 = mean.count as i128;
    let n: i128 = latency as i128 * count + mean.sum;
    if n <= 0 {
        return 0;
    }
    let q: i128 = (2 * n + count) / (2 * count);
    proof {
        let x: int = 2 * n + count;
        let d: int = 2 * count;
        vstd::arithmetic::div_mod::lemma_fundamental_div_mod(x, d);
        vstd::arithmetic::div_mod::lemma_div_pos_is_pos(x, d);
        let l: int = latency as int;
        let c: int = count as int;
        let most: int = 0x10_0000_0000_0000;
        assert(x < d * (l + most + 1)) by (nonlinear_arith)
            requires
                x == 2 * (l * c + mean.sum) + c,
                d == 2 * c,
                c >= 1,
                mean.sum <= most,
                most > 0,
        ;
        assert(x / d <= l + most) by (nonlinear_arith)
            requires
                x == d * (x / d) + x % d,
                x % d >= 0,
                d > 0,
                x < d * (l + most + 1),
        ;
    }
    q as u64
}

/// What keeps the noise floor from being usable.
#[derive(Clone, Copy, Debug, PartialEq, Eq, Structural)]
pub enum NoiseError {
    /// The input stream delivered nothing.
    Silence,
    /// The input is too loud, or feeds back.
    TooLoud,
    /// The threshold would lie above what the click still reaches behind the cable.
    ThresholdTooHigh,
}

/// What keeps a noise floor from being usable, if anything does.
pub open spec fn noise_error(frames: u64, peak: Single, threshold: Single) -> Option<NoiseError> {
    if frames == 0 {
        Some(NoiseError::Silence)
    } else if (Single { bits: MAX_NOISE_PEAK }).lt(peak) {
        Some(NoiseError::TooLoud)
    } else if (Single { bits: MAX_THRESHOLD }).lt(threshold) {
        Some(NoiseError::ThresholdTooHigh)
    } else {
        None
    }
}

/// Check the noise floor before anything is measured.
pub fn check_noise(frames: u64, peak: Single, threshold: Single) -> (r: Result<(), NoiseError>)
    ensures
        r == (if frames == 0 {
            Err(NoiseError::Silence)
        } else if (Single { bits: MAX_NOISE_PEAK }).lt(peak) {
            Err(NoiseError::TooLoud)
        } else if (Single { bits: MAX_THRESHOLD }).lt(threshold) {
            Err(NoiseError::ThresholdTooHigh)
        } else {
            Ok::<(), NoiseError>(())
        }),
        match noise_error(frames, peak, threshold) {
            Some(error) => r == Err::<(), NoiseError>(error),
            None => r is Ok,
        },
{
    if frames == 0 {
        return Err(NoiseError::Silence);
    }
    if (Single { bits: MAX_NOISE_PEAK }).below(peak) {
        return Err(NoiseError::TooLoud);
    }
    if (Single { bits: MAX_THRESHOLD }).below(threshold) {
        return Err(NoiseError::ThresholdTooHigh);
    }
    Ok(())
}

/// How long after an onset nothing is looked at: twice a click tone, never more than half a beat, so
/// a slow tempo cannot mask the next click.
pub open spec fn blanking_of(t: Timeline) -> int {
    let twice = 2 * tone_of(t.rate() as u32);
    let half = t.half_beat_of();
    let shorter = if twice < half {
        twice
    } else {
        half
    };
    if shorter < 1 {
        1
    } else {
        shorter
    }
}

pub fn blanking(timeline: &Timeline) -> (r: u64)
    ensures
        r == blanking_of(*timeline),
{
    let rate: u32 = timeline.sample_rate();
    let tone: u64 = Metronome::new(rate).tone_len();
    assert(tone <= 0x1_0000_0000);
    let twice: u64 = 2 * tone;
    let half: u64 = timeline.half_beat();
    let shorter: u64 = if twice < half {
        twice
    } else {
        half
    };
    if shorter < 1 {
        1
    } else {
        shorter
    }
}

/// The sentence about streams that run on different clocks.
pub open spec fn clock_text(input: u32, output: u32) -> Seq<char> {
    "Ein- und Ausgang laufen auf verschiedenen Sampleraten ("@ + decimal(input as nat) + " und "@
        + decimal(output as nat)
        + "). Die Zeitachse der Engine setzt eine gemeinsame Clock voraus."@
}

/// Check that both streams run on one clock.
pub fn check_clock(input: u32, output: u32) -> (r: Result<(), String>)
    ensures
        if input == output {
            r is Ok
        } else {
            r matches Err(e) && e@ == clock_text(input, output)
        },
{
    if input == output {
        return Ok(());
    }
    let mut text = String::new();
    text.append("Ein- und Ausgang laufen auf verschiedenen Sampleraten (");
    push_decimal(&mut text, input as u64);
    text.append(" und ");
    push_decimal(&mut text, output as u64);
    text.append("). Die Zeitachse der Engine setzt eine gemeinsame Clock voraus.");
    assert(text@ =~= clock_text(input, output));
    Err(text)
}

/// A measurement has at least one run. This is checked before a host or a device is opened.
pub fn check_runs(runs: u32) -> (r: Result<(), String>)
    ensures
        runs == 0 ==> (r matches Err(e) && e@ == "--runs muss mindestens 1 sein."@),
        runs > 0 ==> r is Ok,
{
    if runs == 0 {
        return Err("--runs muss mindestens 1 sein.".to_owned());
    }
    Ok(())
}

/// Check a measurement before anything sounds: the measurement runs in four-four time. The result is
/// its timeline and the length of one loop buffer.
pub fn check_measurement(
    runs: u32,
    input_rate: u32,
    output_rate: u32,
    bpm: Bpm,
    shown: &str,
    bars: u32,
    latency: u64,
) -> (r: Result<(Timeline, u64), String>)
    ensures
        if runs == 0 {
            r matches Err(e) && e@ == "--runs muss mindestens 1 sein."@
        } else if input_rate != output_rate {
            r matches Err(e) && e@ == clock_text(input_rate, output_rate)
        } else {
            match regridded(
                input_rate,
                bpm,
                shown@,
                TimeSignature { beats_per_bar: 4, beat_unit: 4 },
                bars,
                latency,
            ) {
                Err(text) => r matches Err(e) && e@ == text,
                Ok(capacity) => {
                    &&& r matches Ok(found)
                    &&& found.0.rate() == input_rate
                    &&& found.0.tempo() == bpm
                    &&& found.0.metre() == (TimeSignature { beats_per_bar: 4, beat_unit: 4 })
                    &&& found.1 == capacity
                },
            }
        },
{
    match check_runs(runs) {
        Ok(()) => {},
        Err(text) => {
            return Err(text);
        },
    }
    match check_clock(input_rate, output_rate) {
        Ok(()) => {},
        Err(text) => {
            return Err(text);
        },
    }
    grid(input_rate, bpm, shown, TimeSignature::new(4, 4), bars, latency)
}

/// One measurement recording: where it starts and ends, and the bar it starts with.
#[derive(Clone, Copy, Debug, PartialEq, Eq, Structural)]
pub struct Run {
    pub start: u64,
    pub bar: u64,
    pub end: u64,
    /// Samples from now until its last sample has come back.
    pub ahead: u64,
}

/// The frames from an estimate until the last one of a take has come in.
pub open spec fn still_ahead(end: u64, latency: u64, est: u64) -> int {
    if end + latency > est {
        end + latency - est
    } else {
        0
    }
}

/// Plan the next recording, where the engine is at `est`.
pub fn plan_run(scheduler: &Scheduler, est: u64, latency: u64) -> (r: Run)
    requires
        scheduler.reaches_end(est),
        scheduler.last_boundary(est) + latency <= u64::MAX,
    ensures
        r.start == scheduler.grid_from(est),
        r.bar == scheduler.first_bar(est),
        r.end == scheduler.last_boundary(est),
        r.ahead == (if r.end + latency > est {
            r.end + latency - est
        } else {
            0
        }),
        r.ahead == still_ahead(r.end, latency, est),
{
    let start: u64 = scheduler.next_bar(est);
    let bar: u64 = scheduler.timeline.bar_index_at(start);
    let end: u64 = scheduler.timeline.position_of(bar + scheduler.bars as u64, 0);
    let ahead: u64 = if end + latency > est {
        end + latency - est
    } else {
        0
    };
    Run { start, bar, end, ahead }
}

/// All runs of a measurement together.
#[derive(Debug)]
pub struct Totals {
    pub expected: u128,
    pub matched: u64,
    pub spurious: u128,
    pub deviations: Vec<i64>,
    /// The mean of each run that has one.
    pub means: Vec<Mean>,
}

/// What a measurement recommends.
#[derive(Clone, Copy, Debug, PartialEq, Eq, Structural)]
pub struct Recommendation {
    pub mean: Mean,
    pub latency: u64,
    /// Whether enough clicks were found for the numbers to be trusted.
    pub conclusive: bool,
}

pub open spec fn nothing_found_text() -> Seq<char> {
    "In keinem Lauf wurde auch nur ein Klick erkannt. Das ist KEINE perfekte Kalibrierung,\nsondern eine leere Aufnahme. Zu pruefen: Loopback-Kabel gesteckt (Ausgang 1 in\nEingang 1), Eingangs-Gain hoch genug, Ausgangspegel nicht auf null, richtiges Geraet\ngewaehlt."@
}

impl Totals {
    /// These totals with one more run counted in.
    pub open spec fn takes_in(self, analysis: ClickAnalysis, after: Totals) -> bool {
        &&& after.expected == self.expected + analysis.expected
        &&& after.matched == self.matched + analysis.matched
        &&& after.spurious == self.spurious + analysis.spurious
        &&& after.deviations@ == self.deviations@ + analysis.deviations@
        &&& after.means@ == (if analysis.deviations@.len() == 0 {
            self.means@
        } else {
            self.means@.push(
                Mean {
                    sum: total(analysis.deviations@) as i128,
                    count: analysis.deviations@.len() as u64,
                },
            )
        })
    }

    pub fn new() -> (r: Self)
        ensures
            r.expected == 0,
            r.matched == 0,
            r.spurious == 0,
            r.deviations@ == Seq::<i64>::empty(),
            r.means@ == Seq::<Mean>::empty(),
    {
        Totals {
            expected: 0,
            matched: 0,
            spurious: 0,
            deviations: Vec::new(),
            means: Vec::new(),
        }
    }

    /// Count one run in.
    pub fn count(&mut self, analysis: &ClickAnalysis)
        requires
            old(self).expected + analysis.expected <= u128::MAX,
            old(self).matched == old(self).deviations@.len(),
            analysis.matched == analysis.deviations@.len(),
            old(self).spurious + analysis.spurious <= u128::MAX,
        ensures
            old(self).takes_in(*analysis, *final(self)),
            final(self).expected == old(self).expected + analysis.expected,
            final(self).matched == old(self).matched + analysis.matched,
            final(self).spurious == old(self).spurious + analysis.spurious,
            final(self).deviations@ == old(self).deviations@ + analysis.deviations@,
            final(self).means@ == (if analysis.deviations@.len() == 0 {
                old(self).means@
            } else {
                old(self).means@.push(
                    Mean {
                        sum: total(analysis.deviations@) as i128,
                        count: analysis.deviations@.len() as u64,
                    },
                )
            }),
    {
        self.expected = self.expected + analysis.expected as u128;
        self.spurious = self.spurious + analysis.spurious as u128;
        if let Some(mean) = analysis.mean() {
            self.means.push(mean);
        }
        let ghost before = self.deviations@;
        let mut i: usize = 0;
        assert(before + analysis.deviations@.subrange(0, 0) =~= before);
        while i < analysis.deviations.len()
            invariant
                i <= analysis.deviations.len(),
                self.deviations@ == before + analysis.deviations@.subrange(0, i as int),
                self.expected == old(self).expected + analysis.expected,
                self.spurious == old(self).spurious + analysis.spurious,
                before == old(self).deviations@,
                self.means@ == (if analysis.deviations@.len() == 0 {
                    old(self).means@
                } else {
                    old(self).means@.push(
                        Mean {
                            sum: total(analysis.deviations@) as i128,
                            count: analysis.deviations@.len() as u64,
                        },
                    )
                }),
            decreases analysis.deviations.len() - i,
        {
            self.deviations.push(analysis.deviations[i]);
            assert(before + analysis.deviations@.subrange(0, i + 1) =~= (before
                + analysis.deviations@.subrange(0, i as int)).push(analysis.deviations@[i as int]));
            i = i + 1;
        }
        assert(analysis.deviations@.subrange(0, i as int) =~= analysis.deviations@);
        self.matched = self.deviations.len() as u64;
    }

    /// What all runs together recommend. Without a single click there is nothing to recommend: that
    /// is an empty recording, not a perfect calibration.
    pub fn conclude(&self, latency: u64) -> (r: Result<Recommendation, String>)
        requires
            latency <= MAX_LATENCY,
            self.expected <= MOST_CLICKS,
            self.deviations@.len() == self.matched,
            self.matched > 0 ==> printable(
                Mean { sum: total(self.deviations@) as i128, count: self.matched },
            ),
            -0x10_0000_0000_0000 < total(self.deviations@) < 0x10_0000_0000_0000,
        ensures
            if self.matched == 0 {
                r matches Err(e) && e@ == nothing_found_text()
            } else {
                r == Ok::<Recommendation, String>(
                    Recommendation {
                        mean: Mean { sum: total(self.deviations@) as i128, count: self.matched },
                        latency: corrected(
                            latency as int,
                            total(self.deviations@),
                            self.matched as int,
                        ) as u64,
                        conclusive: enough(self.matched as int, self.expected as int),
                    },
                )
            },
    {
        match mean_of(&self.deviations) {
            None => Err(
                "In keinem Lauf wurde auch nur ein Klick erkannt. Das ist KEINE perfekte Kalibrierung,\nsondern eine leere Aufnahme. Zu pruefen: Loopback-Kabel gesteckt (Ausgang 1 in\nEingang 1), Eingangs-Gain hoch genug, Ausgangspegel nicht auf null, richtiges Geraet\ngewaehlt.".to_owned(),
            ),
            Some(mean) => Ok(
                Recommendation {
                    mean,
                    latency: recommend(latency, &mean),
                    conclusive: is_enough(self.matched, self.expected),
                },
            ),
        }
    }
}

// ---------------------------------------------------------------------------------------------
// The command line to paste
// ---------------------------------------------------------------------------------------------

/// The flags of a device, one text each.
pub open spec fn flags(dev: DeviceOpts) -> Seq<Seq<char>> {
    let host = seq!["--host "@ + dev.host@];
    let device = match dev.device {
        Some(name) => seq!["--device "@ + quoted(name@)],
        None => Seq::empty(),
    };
    let format = seq![
        "--rate "@ + decimal(dev.rate as nat),
        "--buffer "@ + decimal(dev.buffer as nat),
    ];
    let inputs = match dev.in_channels {
        Some(c) => seq!["--in-channels "@ + decimal(c as nat)],
        None => Seq::empty(),
    };
    let outputs = match dev.out_channels {
        Some(c) => seq!["--out-channels "@ + decimal(c as nat)],
        None => Seq::empty(),
    };
    let forced = if dev.force_buffer {
        seq!["--force-buffer"@]
    } else {
        Seq::empty()
    };
    host + device + format + inputs + outputs + forced
}

fn flag(name: &str, n: u64) -> (r: String)
    ensures
        r@ == name@ + decimal(n as nat),
{
    let mut r = String::new();
    r.append(name);
    push_decimal(&mut r, n);
    r
}

fn add_text(parts: &mut Vec<String>, text: String)
    ensures
        texts(final(parts)@) == texts(old(parts)@).push(text@),
{
    let ghost before = parts@;
    parts.push(text);
    assert(texts(parts@) =~= texts(before).push(text@));
}

/// The device flags as a command line the user can paste without thinking about it.
pub fn device_flags(dev: &DeviceOpts) -> (r: String)
    ensures
        r@ == joined(flags(*dev), " "@),
{
    let mut parts: Vec<String> = Vec::new();
    assert(texts(parts@) =~= Seq::<Seq<char>>::empty());
    let mut host = String::new();
    host.append("--host ");
    host.append(dev.host.as_str());
    assert(host@ =~= "--host "@ + dev.host@);
    add_text(&mut parts, host);
    if let Some(name) = &dev.device {
        let mut device = String::new();
        device.append("--device ");
        push_quoted(&mut device, name.as_str());
        assert(device@ =~= "--device "@ + quoted(name@));
        add_text(&mut parts, device);
    }
    add_text(&mut parts, flag("--rate ", dev.rate as u64));
    add_text(&mut parts, flag("--buffer ", dev.buffer as u64));
    if let Some(c) = dev.in_channels {
        add_text(&mut parts, flag("--in-channels ", c as u64));
    }
    if let Some(c) = dev.out_channels {
        add_text(&mut parts, flag("--out-channels ", c as u64));
    }
    if dev.force_buffer {
        add_text(&mut parts, "--force-buffer".to_owned());
    }
    assert(texts(parts@) =~= flags(*dev));
    join(&parts, " ")
}

// ---------------------------------------------------------------------------------------------
// Laws
// ---------------------------------------------------------------------------------------------

/// Every onset is loud, and two of them are at least the blanking time apart.
pub proof fn onsets_are_loud_and_apart(
    buf: Seq<u32>,
    threshold: Single,
    blanking: u64,
    n: int,
    i: int,
    j: int,
)
    requires
        0 <= n <= buf.len(),
        n <= u64::MAX,
        0 <= i < j < onsets(buf, threshold, blanking, n).len(),
    ensures
        loud(buf[onsets(buf, threshold, blanking, n)[i] as int], threshold),
        loud(buf[onsets(buf, threshold, blanking, n)[j] as int], threshold),
        onsets(buf, threshold, blanking, n)[i] + blanking <= onsets(buf, threshold, blanking, n)[j],
    decreases n,
{
    let before = onsets(buf, threshold, blanking, n - 1);
    if j < before.len() {
        onsets_are_loud_and_apart(buf, threshold, blanking, n - 1, i, j);
    } else {
        lemma_onset_is_loud(buf, threshold, blanking, n, i);
        lemma_onset_is_loud(buf, threshold, blanking, n, j);
        if i < before.len() - 1 {
            onsets_are_loud_and_apart(buf, threshold, blanking, n - 1, i, before.len() - 1);
        }
    }
}

proof fn lemma_onset_is_loud(buf: Seq<u32>, threshold: Single, blanking: u64, n: int, i: int)
    requires
        0 <= n <= buf.len(),
        n <= u64::MAX,
        0 <= i < onsets(buf, threshold, blanking, n).len(),
    ensures
        loud(buf[onsets(buf, threshold, blanking, n)[i] as int], threshold),
    decreases n,
{
    let before = onsets(buf, threshold, blanking, n - 1);
    if i < before.len() {
        lemma_onset_is_loud(buf, threshold, blanking, n - 1, i);
    }
}

proof fn lemma_silence_has_no_onsets(buf: Seq<u32>, threshold: Single, blanking: u64, n: int)
    requires
        0 <= n <= buf.len(),
        forall|i: int| 0 <= i < buf.len() ==> !loud(#[trigger] buf[i], threshold),
    ensures
        onsets(buf, threshold, blanking, n).len() == 0,
    decreases n,
{
    if n > 0 {
        lemma_silence_has_no_onsets(buf, threshold, blanking, n - 1);
    }
}

/// The most dangerous misreading: a loop in which nothing stands out is never a perfect result. It
/// has no deviations, so no mean and no recommendation, and it is not conclusive.
pub proof fn an_empty_loop_is_no_result(
    r: ClickAnalysis,
    buf: Seq<u32>,
    origin: u64,
    t: Timeline,
    threshold: Single,
    blanking: u64,
)
    requires
        analysed(r, buf, origin, t, threshold, blanking),
        forall|i: int| 0 <= i < buf.len() ==> !loud(#[trigger] buf[i], threshold),
    ensures
        r.matched == 0,
        r.deviations@.len() == 0,
        !enough(r.matched as int, r.expected as int),
{
    lemma_silence_has_no_onsets(buf, threshold, blanking, buf.len() as int);
}

proof fn lemma_tally(t: Timeline, origin: int, first: int, past: int, found: Seq<u64>, n: int)
    requires
        0 <= n <= found.len(),
    ensures
        ({
            let all = tally(t, origin, first, past, found, n);
            &&& all.hits.len() == all.deviations.len()
            &&& all.hits.len() + all.spurious == n
            &&& all.hits.no_duplicates()
            &&& forall|i: int|
                0 <= i < all.hits.len() ==> first <= #[trigger] all.hits[i] < past
        }),
    decreases n,
{
    if n > 0 {
        lemma_tally(t, origin, first, past, found, n - 1);
        let before = tally(t, origin, first, past, found, n - 1);
        let all = tally(t, origin, first, past, found, n);
        if all.hits != before.hits {
            let beat = nearest(t, origin + found[n - 1]).beat;
            assert(all.hits == before.hits.push(beat));
            assert forall|i: int, j: int|
                0 <= i < all.hits.len() && 0 <= j < all.hits.len() && i != j implies all.hits[i]
                != all.hits[j] by {
                if i == before.hits.len() {
                    assert(before.hits.contains(before.hits[j]));
                } else if j == before.hits.len() {
                    assert(before.hits.contains(before.hits[i]));
                }
            }
        }
    }
}

/// Every onset is counted once: matched to a beat of the loop that no other onset was matched to, or
/// as one that belongs to no beat. Every matched one has a deviation.
pub proof fn every_onset_is_counted_once(
    r: ClickAnalysis,
    buf: Seq<u32>,
    origin: u64,
    t: Timeline,
    threshold: Single,
    blanking: u64,
)
    requires
        analysed(r, buf, origin, t, threshold, blanking),
    ensures
        r.deviations@.len() == r.matched,
        r.matched + r.spurious == onsets(buf, threshold, blanking, buf.len() as int).len(),
{
    let found = onsets(buf, threshold, blanking, buf.len() as int);
    let first = first_covered(t, origin as int);
    let past = past_covered(t, origin + buf.len());
    lemma_tally(t, origin as int, first, past, found, found.len() as int);
}

/// The beats from the first one covered to the last are exactly those that start inside the loop, so
/// the number of clicks that must be found is the number of beat starts in it.
pub proof fn the_expected_clicks_are_the_beats_of_the_loop(
    r: ClickAnalysis,
    buf: Seq<u32>,
    origin: u64,
    t: Timeline,
    threshold: Single,
    blanking: u64,
    beat: int,
)
    requires
        t.wf(),
        buf.len() > 0,
        analysed(r, buf, origin, t, threshold, blanking),
    ensures
        ({
            let first = first_covered(t, origin as int);
            let past = past_covered(t, origin + buf.len());
            &&& r.expected == past - first
            &&& first <= beat < past <==> origin <= t.beat_at(beat) < origin + buf.len()
        }),
{
    let end = origin + buf.len();
    let first = first_covered(t, origin as int);
    let past = past_covered(t, end);
    a_position_lies_in_its_beat(t, origin as int);
    a_position_lies_in_its_beat(t, end - 1);
    lemma_covered(t, origin as int, end);
    if beat < first {
        lemma_spread(t, beat, first - 1);
        lemma_spread(t, beat, first);
    } else {
        lemma_spread(t, first, beat);
    }
    if beat < past {
        lemma_spread(t, beat, past - 1);
    } else {
        lemma_spread(t, past, beat);
    }
}

proof fn lemma_tally_is_close(
    t: Timeline,
    origin: int,
    first: int,
    past: int,
    found: Seq<u64>,
    n: int,
    i: int,
)
    requires
        t.wf(),
        0 <= n <= found.len(),
        0 <= i < tally(t, origin, first, past, found, n).deviations.len(),
    ensures
        ({
            let d = tally(t, origin, first, past, found, n).deviations[i] as int;
            !t.beyond_a_quarter(if d < 0 {
                -d
            } else {
                d
            })
        }),
    decreases n,
{
    if n > 0 {
        let before = tally(t, origin, first, past, found, n - 1);
        if i < before.deviations.len() {
            lemma_tally_is_close(t, origin, first, past, found, n - 1, i);
        } else {
            let near = nearest(t, origin + found[n - 1]);
            a_beat_has_a_length(t);
            assert(!t.beyond_a_quarter(near.distance as int));
        }
    }
}

proof fn lemma_distinct_beats(hits: Seq<u64>, first: int, past: int)
    requires
        first <= past,
        hits.no_duplicates(),
        forall|i: int| 0 <= i < hits.len() ==> first <= #[trigger] hits[i] < past,
    ensures
        hits.len() <= past - first,
{
    let beats = hits.map_values(|hit: u64| hit as int);
    beats.unique_seq_to_set();
    vstd::set_lib::lemma_int_range(first, past);
    assert(beats.to_set().subset_of(vstd::set_lib::set_int_range(first, past)));
    vstd::set_lib::lemma_len_subset(
        beats.to_set(),
        vstd::set_lib::set_int_range(first, past),
    );
}

/// No more clicks are matched than the loop has beats, and every one of them lies within a quarter
/// of a beat of its own.
pub proof fn a_match_is_one_of_the_beats_and_close_to_it(
    r: ClickAnalysis,
    buf: Seq<u32>,
    origin: u64,
    t: Timeline,
    threshold: Single,
    blanking: u64,
)
    requires
        t.wf(),
        analysed(r, buf, origin, t, threshold, blanking),
    ensures
        r.matched <= r.expected,
        forall|i: int|
            0 <= i < r.deviations@.len() ==> !t.beyond_a_quarter(
                if #[trigger] r.deviations@[i] < 0 {
                    -(r.deviations@[i] as int)
                } else {
                    r.deviations@[i] as int
                },
            ),
{
    if buf.len() > 0 {
        let found = onsets(buf, threshold, blanking, buf.len() as int);
        let first = first_covered(t, origin as int);
        let past = past_covered(t, origin + buf.len());
        let all = tally(t, origin as int, first, past, found, found.len() as int);
        lemma_covered(t, origin as int, origin + buf.len());
        lemma_tally(t, origin as int, first, past, found, found.len() as int);
        lemma_distinct_beats(all.hits, first, past);
        assert forall|i: int| 0 <= i < r.deviations@.len() implies !t.beyond_a_quarter(
            if #[trigger] r.deviations@[i] < 0 {
                -(r.deviations@[i] as int)
            } else {
                r.deviations@[i] as int
            },
        ) by {
            lemma_tally_is_close(
                t,
                origin as int,
                first,
                past,
                found,
                found.len() as int,
                i,
            );
        }
    }
}

proof fn lemma_total_of_equals(deviations: Seq<i64>, d: i64)
    requires
        forall|i: int| 0 <= i < deviations.len() ==> deviations[i] == d,
    ensures
        total(deviations) == d * deviations.len(),
    decreases deviations.len(),
{
    if deviations.len() > 0 {
        assert forall|i: int| 0 <= i < deviations.len() - 1 implies deviations.drop_last()[i]
            == d by {
            assert(deviations.drop_last()[i] == deviations[i]);
        }
        lemma_total_of_equals(deviations.drop_last(), d);
        assert(d * (deviations.len() - 1) + d == d * deviations.len()) by (nonlinear_arith);
    }
}

/// A compensation that is off by `d` shows up as its own difference: where every click lies `d`
/// samples late (or early, where `d` is negative), the recommendation is the value in use plus `d`.
pub proof fn a_wrong_compensation_is_corrected(latency: int, deviations: Seq<i64>, d: i64)
    requires
        deviations.len() > 0,
        forall|i: int| 0 <= i < deviations.len() ==> deviations[i] == d,
    ensures
        corrected(latency, total(deviations), deviations.len() as int) == (if latency + d > 0 {
            latency + d
        } else {
            0
        }),
{
    lemma_total_of_equals(deviations, d);
    let c = deviations.len() as int;
    let x = latency + d;
    assert(latency * c + d * c == x * c) by (nonlinear_arith)
        requires
            x == latency + d,
    ;
    if x > 0 {
        assert(x * c > 0) by (nonlinear_arith)
            requires
                x > 0,
                c > 0,
        ;
        assert(2 * (x * c) + c == (2 * c) * x + c) by (nonlinear_arith);
        vstd::arithmetic::div_mod::lemma_fundamental_div_mod_converse(
            2 * (x * c) + c,
            2 * c,
            x,
            c,
        );
    } else {
        assert(x * c <= 0) by (nonlinear_arith)
            requires
                x <= 0,
                c > 0,
        ;
    }
}

proof fn lemma_beat_gap(t: Timeline, beat: int, d: int)
    requires
        t.wf(),
        d >= 1,
        4 * (d * t.over()) <= t.length(),
    ensures
        t.beat_at(beat + 1) - t.beat_at(beat) > 2 * d,
{
    every_beat_is_within_half_a_sample(t, beat);
    every_beat_is_within_half_a_sample(t, beat + 1);
    a_beat_has_a_length(t);
    let a = t.length();
    let b = t.over();
    let x = t.beat_at(beat);
    let y = t.beat_at(beat + 1);
    assert(y - x > 2 * d) by (nonlinear_arith)
        requires
            -b <= 2 * (x * b - beat * a) <= b,
            -b <= 2 * (y * b - (beat + 1) * a) <= b,
            4 * (d * b) <= a,
            d >= 1,
            b > 0,
    ;
}

proof fn lemma_nearest_of_close(t: Timeline, beat: int, d: int)
    requires
        t.wf(),
        0 <= beat <= u64::MAX,
        t.beat_at(beat) + d >= 0,
        d >= 0 ==> 4 * (d * t.over()) <= t.length(),
        d < 0 ==> 4 * (-d * t.over()) <= t.length(),
    ensures
        nearest(t, t.beat_at(beat) + d).beat == beat,
        nearest(t, t.beat_at(beat) + d).deviation() == d,
        nearest(t, t.beat_at(beat) + d).distance == (if d < 0 {
            -d
        } else {
            d
        }),
{
    let pos = t.beat_at(beat) + d;
    a_beat_has_a_length(t);
    if d >= 0 {
        assert(!t.beyond_a_quarter(d));
        beats_are_strictly_ordered(t, beat, beat + 1);
        if d >= 1 {
            lemma_beat_gap(t, beat, d);
        }
        a_beat_is_what_lies_between_two_starts(t, beat, pos);
    } else {
        assert(!t.beyond_a_quarter(-d));
        lemma_beat_gap(t, beat - 1, -d);
        a_beat_is_what_lies_between_two_starts(t, beat - 1, pos);
        the_first_beat_is_at_zero(t);
        if beat == 0 {
            assert(t.beat_at(beat) == 0);
        }
    }
}

/// The nearest beat is nearer than any other, or as near as the one behind it, and the deviation is
/// the signed distance from its start: positive where the position is late.
pub proof fn the_nearest_beat_is_the_nearest(t: Timeline, pos: int, other: int)
    requires
        t.wf(),
        0 <= pos < MAX_BEAT,
        t.beat_at(t.beat_of(pos) + 1) <= u64::MAX,
    ensures
        ({
            let near = nearest(t, pos);
            let away = pos - t.beat_at(near.beat as int);
            let further = pos - t.beat_at(other);
            &&& near.deviation() == away
            &&& near.distance == (if away < 0 {
                -away
            } else {
                away
            })
            &&& near.distance <= (if further < 0 {
                -further
            } else {
                further
            })
        }),
{
    a_position_lies_in_its_beat(t, pos);
    let here = t.beat_of(pos);
    if other < here {
        beats_are_strictly_ordered(t, other, here);
    } else if other > here + 1 {
        beats_are_strictly_ordered(t, here + 1, other);
    }
}

/// Whether an onset lies within a quarter of a beat of the start of one.
pub open spec fn close(t: Timeline, pos: int, beat: int) -> bool {
    let away = pos - t.beat_at(beat);
    4 * ((if away < 0 {
        -away
    } else {
        away
    }) * t.over()) <= t.length()
}

proof fn lemma_hits_come_from_onsets(
    t: Timeline,
    origin: int,
    first: int,
    past: int,
    found: Seq<u64>,
    n: int,
    beat: u64,
)
    requires
        t.wf(),
        0 <= origin,
        0 <= n <= found.len(),
        forall|i: int| 0 <= i < found.len() ==> origin + (#[trigger] found[i]) < MAX_BEAT,
        forall|i: int|
            0 <= i < found.len() ==> t.beat_at(t.beat_of(origin + (#[trigger] found[i])) + 1)
                <= u64::MAX,
        tally(t, origin, first, past, found, n).hits.contains(beat),
    ensures
        exists|i: int| 0 <= i < n && #[trigger] close(t, origin + found[i], beat as int),
    decreases n,
{
    if n > 0 {
        let before = tally(t, origin, first, past, found, n - 1);
        let near = nearest(t, origin + found[n - 1]);
        let all = tally(t, origin, first, past, found, n);
        if before.hits.contains(beat) {
            lemma_hits_come_from_onsets(t, origin, first, past, found, n - 1, beat);
        } else {
            let k = choose|k: int| 0 <= k < all.hits.len() && all.hits[k] == beat;
            if k < before.hits.len() {
                assert(before.hits[k] == beat);
            }
            the_nearest_beat_is_the_nearest(t, origin + found[n - 1], 0);
            assert(near.beat == beat);
            assert(close(t, origin + found[n - 1], beat as int));
        }
    }
}

proof fn lemma_tally_only_grows(
    t: Timeline,
    origin: int,
    first: int,
    past: int,
    found: Seq<u64>,
    n: int,
    m: int,
    i: int,
)
    requires
        0 <= n <= m,
        0 <= i < tally(t, origin, first, past, found, n).hits.len(),
        i < tally(t, origin, first, past, found, n).deviations.len(),
    ensures
        i < tally(t, origin, first, past, found, m).hits.len(),
        i < tally(t, origin, first, past, found, m).deviations.len(),
        tally(t, origin, first, past, found, m).hits[i] == tally(
            t,
            origin,
            first,
            past,
            found,
            n,
        ).hits[i],
        tally(t, origin, first, past, found, m).deviations[i] == tally(
            t,
            origin,
            first,
            past,
            found,
            n,
        ).deviations[i],
    decreases m,
{
    if n < m {
        lemma_tally_only_grows(t, origin, first, past, found, n, m - 1, i);
    }
}

proof fn lemma_onsets_are_countable(
    buf: Seq<u32>,
    origin: u64,
    t: Timeline,
    threshold: Single,
    blanking: u64,
    i: int,
)
    requires
        t.wf(),
        countable(t, origin, buf.len()),
        0 <= i < onsets(buf, threshold, blanking, buf.len() as int).len(),
    ensures
        ({
            let pos = origin + onsets(buf, threshold, blanking, buf.len() as int)[i];
            pos < MAX_BEAT && t.beat_at(t.beat_of(pos) + 1) <= u64::MAX
        }),
{
    lemma_onsets_lie_inside(buf, threshold, blanking, buf.len() as int, i);
    let pos = origin + onsets(buf, threshold, blanking, buf.len() as int)[i];
    beats_follow_positions(t, pos, origin + buf.len());
    a_position_lies_in_its_beat(t, pos);
    earlier_beats_are_reached(t, t.beat_of(pos) + 1, t.beat_of(origin + buf.len()) + 1);
}

/// Nothing that is a click is overlooked: an onset within a quarter of a beat of a beat that starts
/// inside the loop is matched to it, unless an earlier onset is as close, and its deviation is its
/// position less the start of that beat.
pub proof fn a_click_near_its_beat_is_matched(
    r: ClickAnalysis,
    buf: Seq<u32>,
    origin: u64,
    t: Timeline,
    threshold: Single,
    blanking: u64,
    k: int,
    beat: int,
)
    requires
        t.wf(),
        buf.len() > 0,
        countable(t, origin, buf.len()),
        analysed(r, buf, origin, t, threshold, blanking),
        0 <= k < onsets(buf, threshold, blanking, buf.len() as int).len(),
        0 <= beat,
        origin <= t.beat_at(beat) < origin + buf.len(),
        close(t, origin + onsets(buf, threshold, blanking, buf.len() as int)[k], beat),
        forall|i: int|
            0 <= i < k ==> !#[trigger] close(
                t,
                origin + onsets(buf, threshold, blanking, buf.len() as int)[i],
                beat,
            ),
    ensures
        r.matched >= 1,
        exists|i: int|
            0 <= i < r.matched && #[trigger] r.deviations@[i] == origin + onsets(
                buf,
                threshold,
                blanking,
                buf.len() as int,
            )[k] - t.beat_at(beat),
{
    let found = onsets(buf, threshold, blanking, buf.len() as int);
    let first = first_covered(t, origin as int);
    let past = past_covered(t, origin + buf.len());
    let n = found.len() as int;
    the_expected_clicks_are_the_beats_of_the_loop(
        r,
        buf,
        origin,
        t,
        threshold,
        blanking,
        beat,
    );
    assert forall|i: int| 0 <= i < found.len() implies origin + (#[trigger] found[i]) < MAX_BEAT
        && t.beat_at(t.beat_of(origin + found[i]) + 1) <= u64::MAX by {
        lemma_onsets_are_countable(buf, origin, t, threshold, blanking, i);
    }
    let pos = origin + found[k];
    let d = pos - t.beat_at(beat);
    lemma_spread(t, 0, beat);
    the_first_beat_is_at_zero(t);
    lemma_nearest_of_close(t, beat, d);
    a_beat_has_a_length(t);
    let near = nearest(t, pos);
    assert(!t.beyond_a_quarter(near.distance as int));
    let before = tally(t, origin as int, first, past, found, k);
    if before.hits.contains(near.beat) {
        lemma_hits_come_from_onsets(t, origin as int, first, past, found, k, near.beat);
    }
    let then = tally(t, origin as int, first, past, found, k + 1);
    lemma_tally(t, origin as int, first, past, found, k);
    let at = before.hits.len() as int;
    assert(then.hits[at] == near.beat);
    assert(then.deviations[at] == d);
    lemma_tally_only_grows(t, origin as int, first, past, found, k + 1, n, at);
    assert(r.deviations@[at] == d);
}

proof fn lemma_every_beat_hit(
    t: Timeline,
    origin: int,
    first: int,
    past: int,
    found: Seq<u64>,
    d: int,
    n: int,
)
    requires
        t.wf(),
        0 <= origin,
        0 <= first,
        past <= u64::MAX,
        0 <= n <= found.len(),
        found.len() <= past - first,
        d >= 0 ==> 4 * (d * t.over()) <= t.length(),
        d < 0 ==> 4 * (-d * t.over()) <= t.length(),
        forall|i: int|
            0 <= i < found.len() ==> origin + (#[trigger] found[i]) == t.beat_at(first + i) + d,
    ensures
        ({
            let all = tally(t, origin, first, past, found, n);
            &&& all.hits.len() == n
            &&& all.deviations.len() == n
            &&& all.spurious == 0
            &&& forall|i: int| 0 <= i < n ==> #[trigger] all.hits[i] == first + i
            &&& forall|i: int| 0 <= i < n ==> #[trigger] all.deviations[i] == d
        }),
    decreases n,
{
    if n > 0 {
        lemma_every_beat_hit(t, origin, first, past, found, d, n - 1);
        let before = tally(t, origin, first, past, found, n - 1);
        let near = nearest(t, origin + found[n - 1]);
        a_beat_has_a_length(t);
        lemma_nearest_of_close(t, first + n - 1, d);
        assert(!t.beyond_a_quarter(near.distance as int));
        assert(!before.hits.contains(near.beat)) by {
            if before.hits.contains(near.beat) {
                let k = choose|k: int| 0 <= k < before.hits.len() && before.hits[k] == near.beat;
                assert(before.hits[k] == first + k);
            }
        }
    }
}

/// A loop in which every beat has one click, all of them equally late or early by at most a quarter
/// of a beat, is matched completely, and that is every deviation.
pub proof fn evenly_shifted_clicks_are_all_matched(
    r: ClickAnalysis,
    buf: Seq<u32>,
    origin: u64,
    t: Timeline,
    threshold: Single,
    blanking: u64,
    d: int,
    first: int,
)
    requires
        t.wf(),
        buf.len() > 0,
        countable(t, origin, buf.len()),
        analysed(r, buf, origin, t, threshold, blanking),
        0 <= first,
        origin <= t.beat_at(first),
        first > 0 ==> t.beat_at(first - 1) < origin,
        d >= 0 ==> 4 * (d * t.over()) <= t.length(),
        d < 0 ==> 4 * (-d * t.over()) <= t.length(),
        onsets(buf, threshold, blanking, buf.len() as int).len() == r.expected,
        forall|i: int|
            0 <= i < r.expected ==> origin + #[trigger] onsets(
                buf,
                threshold,
                blanking,
                buf.len() as int,
            )[i] == t.beat_at(first + i) + d,
    ensures
        r.matched == r.expected,
        r.spurious == 0,
        forall|i: int| 0 <= i < r.deviations@.len() ==> #[trigger] r.deviations@[i] == d,
{
    let found = onsets(buf, threshold, blanking, buf.len() as int);
    let past = past_covered(t, origin + buf.len());
    lemma_covered(t, origin as int, origin + buf.len());
    a_position_lies_in_its_beat(t, origin + buf.len());
    let covered = first_covered(t, origin as int);
    a_position_lies_in_its_beat(t, origin as int);
    let here = t.beat_of(origin as int);
    assert(covered == first) by {
        if covered < first {
            if covered < first - 1 {
                beats_are_strictly_ordered(t, covered, first - 1);
            }
        } else if first < covered {
            if first < here {
                beats_are_strictly_ordered(t, first, here);
            }
        }
    }
    lemma_every_beat_hit(t, origin as int, first, past, found, d, found.len() as int);
}

/// A loud sample is an onset, unless one shortly before it masks it: nothing loud is overlooked.
pub proof fn a_loud_sample_belongs_to_an_onset(
    buf: Seq<u32>,
    threshold: Single,
    blanking: u64,
    n: int,
    p: int,
)
    requires
        0 <= p < n <= buf.len(),
        n <= u64::MAX,
        loud(buf[p], threshold),
    ensures
        exists|i: int|
            0 <= i < onsets(buf, threshold, blanking, n).len() && {
                let onset = #[trigger] onsets(buf, threshold, blanking, n)[i];
                onset == p || onset < p < onset + blanking
            },
    decreases n,
{
    let all = onsets(buf, threshold, blanking, n);
    let before = onsets(buf, threshold, blanking, n - 1);
    if p < n - 1 {
        a_loud_sample_belongs_to_an_onset(buf, threshold, blanking, n - 1, p);
        let i = choose|i: int|
            0 <= i < before.len() && {
                let onset = #[trigger] before[i];
                onset == p || onset < p < onset + blanking
            };
        assert(all[i] == before[i]);
    } else if before.len() == 0 || before.last() + blanking <= n - 1 {
        assert(all[all.len() - 1] == p);
    } else {
        let last = before.len() - 1;
        lemma_onsets_lie_inside(buf, threshold, blanking, n - 1, last as int);
        assert(all[last as int] == before.last());
    }
}

/// A sample is loud exactly where its distance from zero exceeds the threshold, on either side.
pub proof fn loudness_has_no_sign(sample: u32, threshold: Single)
    requires
        sample < 0x8000_0000,
    ensures
        loud(sample, threshold) <==> threshold.lt(Single { bits: sample }),
        loud((sample + 0x8000_0000) as u32, threshold) <==> loud(sample, threshold),
{
}

/// The corrected compensation is the value in use moved by the mean deviation, to within half a
/// frame, and never below zero.
pub proof fn a_correction_is_exact_to_half_a_frame(latency: int, sum: int, count: int)
    requires
        count > 0,
    ensures
        corrected(latency, sum, count) >= 0,
        latency * count + sum <= 0 ==> corrected(latency, sum, count) == 0,
        latency * count + sum > 0 ==> -count < 2 * (corrected(latency, sum, count) * count - (latency
            * count + sum)) <= count,
{
    let n = latency * count + sum;
    if n > 0 {
        let x = 2 * n + count;
        let y = 2 * count;
        vstd::arithmetic::div_mod::lemma_fundamental_div_mod(x, y);
        vstd::arithmetic::div_mod::lemma_mod_bound(x, y);
        let q = x / y;
        assert(y * q == 2 * (q * count)) by (nonlinear_arith)
            requires
                y == 2 * count,
        ;
        vstd::arithmetic::div_mod::lemma_div_pos_is_pos(x, y);
    }
}

/// The time after an onset in which nothing is looked at ends before the next beat is halfway
/// reached, and is never nothing.
pub proof fn blanking_ends_before_the_next_click(t: Timeline)
    requires
        t.wf(),
    ensures
        blanking_of(t) >= 1,
        blanking_of(t) == 1 || 2 * (blanking_of(t) * t.over()) <= t.length(),
        blanking_of(t) == 1 || blanking_of(t) <= 2 * tone_of(t.rate() as u32),
        2 * tone_of(t.rate() as u32) <= blanking_of(t) || t.half_beat_of() <= blanking_of(t),
{
    a_beat_has_a_length(t);
    let a = t.length();
    let b = t.over();
    let half = t.half_beat_of();
    vstd::arithmetic::div_mod::lemma_fundamental_div_mod(a, 2 * b);
    vstd::arithmetic::div_mod::lemma_mod_bound(a, 2 * b);
    let k = blanking_of(t);
    if k > 1 {
        assert(2 * (k * b) <= a) by (nonlinear_arith)
            requires
                k <= half,
                (2 * b) * half <= a,
                b > 0,
        ;
    }
}

/// Nine of ten clicks are enough and fewer are not; of no clicks at all none are enough.
pub proof fn nine_of_ten_clicks_are_enough(matched: int, expected: int, tens: int)
    ensures
        tens > 0 ==> enough(9 * tens, 10 * tens) && !enough(9 * tens - 1, 10 * tens),
        expected > 0 ==> enough(expected, expected),
        !enough(matched, 0),
        enough(matched, expected) ==> enough(matched + 1, expected),
{
}

/// A noise floor is usable exactly where something was heard, it is no louder than a tenth of full
/// scale, and the threshold stays below what the click still reaches; the first of these that fails
/// is named.
pub proof fn a_quiet_input_is_usable(frames: u64, peak: Single, threshold: Single)
    ensures
        frames == 0 ==> noise_error(frames, peak, threshold) == Some(NoiseError::Silence),
        frames > 0 && (Single { bits: 0x3dcc_cccd }).lt(peak) ==> noise_error(
            frames,
            peak,
            threshold,
        ) == Some(NoiseError::TooLoud),
        frames > 0 && peak.le(Single { bits: 0x3dcc_cccd }) && (Single { bits: 0x3e4c_cccd }).lt(
            threshold,
        ) ==> noise_error(frames, peak, threshold) == Some(NoiseError::ThresholdTooHigh),
        frames > 0 && peak.le(Single { bits: 0x3dcc_cccd }) && threshold.le(
            Single { bits: 0x3e4c_cccd },
        ) ==> noise_error(frames, peak, threshold) is None,
{
}

/// A verdict names the direction: a mean of more than ten samples late says that the click is too
/// late, one of more than ten early that it is too early, and in between that the value fits.
pub proof fn a_verdict_names_the_direction(mean: Mean)
    requires
        mean.count > 0,
    ensures
        mean.sum > 10 * mean.count ==> holds(verdict_text(mean), "ZU SPAET"@),
        mean.sum < -10 * mean.count ==> holds(verdict_text(mean), "ZU FRUEH"@),
        -10 * mean.count <= mean.sum <= 10 * mean.count ==> holds(
            verdict_text(mean),
            "Der eingestellte Wert passt."@,
        ),
{
    let shown = one_decimal(tenths_of(mean));
    let text = verdict_text(mean);
    if mean.sum > 10 * mean.count {
        let back = " Samples ZU SPAET im Loop. Die Kompensation zieht zu wenig ab, der Wert muss groesser werden."@;
        reveal_strlit(
            " Samples ZU SPAET im Loop. Die Kompensation zieht zu wenig ab, der Wert muss groesser werden.",
        );
        reveal_strlit("ZU SPAET");
        let front = "Der aufgenommene Klick sitzt im Mittel "@ + shown;
        let at = front.len() as int + 9;
        assert(text =~= front + back);
        assert(text.subrange(at, at + 8) =~= "ZU SPAET"@);
        assert(stands_at(text, "ZU SPAET"@, at));
    } else if mean.sum < -10 * mean.count {
        let back = " Samples ZU FRUEH im Loop. Die Kompensation zieht zu viel ab, der Wert muss kleiner werden."@;
        reveal_strlit(
            " Samples ZU FRUEH im Loop. Die Kompensation zieht zu viel ab, der Wert muss kleiner werden.",
        );
        reveal_strlit("ZU FRUEH");
        let front = "Der aufgenommene Klick sitzt im Mittel "@ + shown;
        let at = front.len() as int + 9;
        assert(text =~= front + back);
        assert(text.subrange(at, at + 8) =~= "ZU FRUEH"@);
        assert(stands_at(text, "ZU FRUEH"@, at));
    } else {
        let back = " Samples im Rahmen der Impulsdetektion (Grenze 10 Samples). Der eingestellte Wert passt."@;
        reveal_strlit(
            " Samples im Rahmen der Impulsdetektion (Grenze 10 Samples). Der eingestellte Wert passt.",
        );
        reveal_strlit("Der eingestellte Wert passt.");
        let sign = if mean.sum < 0 {
            "-"@
        } else {
            ""@
        };
        let front = "Die mittlere Abweichung liegt mit "@ + sign + shown;
        assert(text =~= front + back);
        let at = front.len() as int + 60;
        assert(back.len() == 88);
        assert(text.subrange(at, at + 28) =~= "Der eingestellte Wert passt."@);
        assert(stands_at(text, "Der eingestellte Wert passt."@, at));
    }
}

/// The peak of a buffer is as loud as its loudest sample, whatever the sign: no sample that is a
/// number lies above it, and it is the loudness of one of them, or silence.
pub proof fn a_peak_is_the_loudest_sample(buf: Seq<u32>, n: int)
    requires
        0 <= n <= buf.len(),
        forall|i: int| 0 <= i < n ==> !(Single { bits: #[trigger] buf[i] }).nan(),
    ensures
        !peak_of(buf, n).nan(),
        forall|i: int|
            0 <= i < n ==> (Single { bits: #[trigger] buf[i] }).unsigned().le(peak_of(buf, n)),
        peak_of(buf, n).bits == 0 || exists|i: int|
            0 <= i < n && (Single { bits: #[trigger] buf[i] }).unsigned() == peak_of(buf, n),
    decreases n,
{
    if n > 0 {
        a_peak_is_the_loudest_sample(buf, n - 1);
        let before = peak_of(buf, n - 1);
        let last = (Single { bits: buf[n - 1] }).unsigned();
        assert(!last.nan());
        the_larger_is_not_below_either(before, last);
    }
}

/// After the frames that are still ahead the take is in, and not one frame sooner.
pub proof fn a_run_is_over_when_its_last_frame_is_in(end: u64, latency: u64, est: u64)
    ensures
        still_ahead(end, latency, est) >= 0,
        est + still_ahead(end, latency, est) >= end + latency,
        est <= end + latency ==> est + still_ahead(end, latency, est) == end + latency,
        est > end + latency ==> still_ahead(end, latency, est) == 0,
{
}

/// Runs add up: what a run counted is added to what the others did, and a run in which nothing was
/// matched has no mean of its own.
pub proof fn runs_add_up(before: Totals, analysis: ClickAnalysis, after: Totals)
    requires
        before.takes_in(analysis, after),
        before.matched == before.deviations@.len(),
        analysis.matched == analysis.deviations@.len(),
    ensures
        after.matched == after.deviations@.len(),
        after.expected - after.matched == (before.expected - before.matched) + (analysis.expected
            - analysis.matched),
        after.spurious - before.spurious == analysis.spurious,
        total(after.deviations@) == total(before.deviations@) + total(analysis.deviations@),
        analysis.matched == 0 ==> after.means@ == before.means@,
        analysis.matched > 0 ==> after.means@.len() == before.means@.len() + 1,
        forall|i: int|
            0 <= i < before.means@.len() ==> #[trigger] after.means@[i] == before.means@[i],
{
    lemma_totals_add(before.deviations@, analysis.deviations@);
}

proof fn lemma_totals_add(a: Seq<i64>, b: Seq<i64>)
    ensures
        total(a + b) == total(a) + total(b),
    decreases b.len(),
{
    if b.len() == 0 {
        assert(a + b =~= a);
    } else {
        assert((a + b).drop_last() =~= a + b.drop_last());
        lemma_totals_add(a, b.drop_last());
    }
}

} // verus!
