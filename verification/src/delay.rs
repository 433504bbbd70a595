//! Where a tempo-synchronous delay reads its line.
//!
//! The delay time is a note value of the tempo, exact to the sample. The reference is the quarter
//! note, not the beat: with a beat unit of 8 a beat is an eighth, and a musician who asks for a
//! quarter-note delay means a quarter note in both cases.
//!
//! The line is allocated once and never resized. It holds a quarter note at 30 BPM, two seconds;
//! below that tempo the tap is clamped to the line and simply stops getting longer.
//!
//! On a tempo change the tap moves, and moving a read pointer in one step is a click. So the old
//! and the new tap are crossfaded: while [`DelayTap::is_fading`], both are read.
use vstd::prelude::*;
use crate::fx::DelayNote;
use crate::timeline::{
    a_valid_tempo_has_a_scale,
    rounded,
    rounding_is_to_the_nearest,
    Bpm,
    FRACTION,
};

verus! {

/// Slowest tempo the line is sized for.
pub const MIN_SYNC_BPM: u32 = 30;

/// Longest tap the line has to hold: one quarter note at [`MIN_SYNC_BPM`].
pub const MAX_DELAY_SECONDS: u32 = 2;

/// Length of the line in samples.
pub open spec fn line_length(rate: int) -> int {
    rate * MAX_DELAY_SECONDS + 2
}

/// A note value at a tempo in samples, rounded to the nearest.
pub open spec fn note_samples(rate: int, bpm: Bpm, note: DelayNote) -> int {
    rounded(1, rate * 60 * FRACTION * note.share().0, bpm.scaled() * note.share().1)
}

/// The tap for a note value: its length, but at least one sample and never more than the line
/// holds.
pub open spec fn tap_for(rate: int, bpm: Bpm, note: DelayNote) -> int {
    let exact = note_samples(rate, bpm, note);
    if exact < 1 {
        1
    } else if exact > line_length(rate) - 1 {
        line_length(rate) - 1
    } else {
        exact
    }
}

/// The slot that lies a distance behind the one being written; the oldest one where the line is
/// shorter than that.
pub open spec fn slot_behind(at: int, distance: int, len: int) -> int {
    if distance >= len {
        slot_after(at, len)
    } else if distance <= at {
        at - distance
    } else {
        at - distance + len
    }
}

/// The slot behind another one, in a line that starts over at its end.
pub open spec fn slot_after(slot: int, len: int) -> int {
    if slot + 1 < len {
        slot + 1
    } else {
        0
    }
}

/// The slot that is `steps` behind another one.
pub open spec fn slot_later(slot: int, steps: nat, len: int) -> int
    decreases steps,
{
    if steps == 0 {
        slot
    } else {
        slot_after(slot_later(slot, (steps - 1) as nat, len), len)
    }
}

/// Read and write positions of one delay line.
#[derive(Clone, Copy, Debug, PartialEq, Eq)]
pub struct DelayTap {
    rate: u32,
    write: u64,
    /// Tap distance in samples, currently in effect.
    taps: u64,
    /// Tap distance being faded in, if a fade is running.
    fading_to: u64,
    fading: bool,
    note: DelayNote,
    /// `None` until the first tempo has been seen. The very first tap is set without a crossfade,
    /// because the line is empty and nothing has been heard yet.
    tempo: Option<Bpm>,
}

/// A delay that was given another note value: with a tempo it fades from the tap it was heading for
/// to the new one, where those differ; without one nothing is heard of it yet.
pub open spec fn renoted(before: DelayTap, after: DelayTap, note: DelayNote) -> bool {
    &&& after.spec_note() == note
    &&& after.spec_rate() == before.spec_rate()
    &&& after.spec_tempo() == before.spec_tempo()
    &&& after.at() == before.at()
    &&& match before.spec_tempo() {
        Some(bpm) => {
            &&& after.target() == tap_for(before.spec_rate(), bpm, note)
            &&& after.sounding() == before.target()
            &&& after.spec_fading() == (after.target() != before.target())
        },
        None => {
            &&& after.target() == before.target()
            &&& after.sounding() == before.sounding()
            &&& after.spec_fading() == before.spec_fading()
        },
    }
}

/// A cross-fade is over: what was faded to is what sounds.
pub open spec fn faded(before: DelayTap, after: DelayTap) -> bool {
    &&& after.sounding() == before.target()
    &&& after.target() == before.target()
    &&& !after.spec_fading()
    &&& after.spec_rate() == before.spec_rate()
    &&& after.spec_note() == before.spec_note()
    &&& after.spec_tempo() == before.spec_tempo()
    &&& after.at() == before.at()
}

/// The line begins anew, and a cross-fade that was running is dropped.
pub open spec fn emptied(before: DelayTap, after: DelayTap) -> bool {
    &&& after.sounding() == before.sounding()
    &&& after.target() == before.sounding()
    &&& !after.spec_fading()
    &&& after.spec_rate() == before.spec_rate()
    &&& after.spec_note() == before.spec_note()
    &&& after.spec_tempo() == before.spec_tempo()
    &&& after.at() == 0
}

/// A delay that was told the tempo: the one it has changes nothing, another one starts a fade to the
/// new tap, and the very first one sets the tap at once.
pub open spec fn retuned(before: DelayTap, after: DelayTap, bpm: Bpm) -> bool {
    &&& after.spec_tempo() == Some(bpm)
    &&& after.spec_note() == before.spec_note()
    &&& after.spec_rate() == before.spec_rate()
    &&& after.at() == before.at()
    &&& match before.spec_tempo() {
        Some(known) => if known == bpm {
            after == before
        } else {
            &&& after.target() == tap_for(before.spec_rate(), bpm, before.spec_note())
            &&& after.sounding() == before.target()
            &&& after.spec_fading() == (after.target() != before.target())
        },
        None => {
            &&& after.target() == tap_for(before.spec_rate(), bpm, before.spec_note())
            &&& after.sounding() == after.target()
            &&& !after.spec_fading()
        },
    }
}

impl DelayTap {
    #[verifier::type_invariant]
    pub closed spec fn wf(self) -> bool {
        &&& self.write < line_length(self.rate as int)
        &&& 1 <= self.taps < line_length(self.rate as int)
        &&& self.fading ==> 1 <= self.fading_to < line_length(self.rate as int)
        &&& self.tempo matches Some(bpm) ==> bpm.valid()
    }

    pub closed spec fn spec_rate(self) -> int {
        self.rate as int
    }

    pub closed spec fn spec_note(self) -> DelayNote {
        self.note
    }

    pub closed spec fn spec_tempo(self) -> Option<Bpm> {
        self.tempo
    }

    pub closed spec fn sounding(self) -> int {
        self.taps as int
    }

    pub closed spec fn spec_fading(self) -> bool {
        self.fading
    }

    pub closed spec fn at(self) -> int {
        self.write as int
    }

    /// The tap the delay is heading for.
    pub closed spec fn target(self) -> int {
        if self.fading {
            self.fading_to as int
        } else {
            self.taps as int
        }
    }

    pub fn new(rate: u32, note: DelayNote) -> (r: Self)
        ensures
            r.wf(),
            r.spec_rate() == rate,
            r.spec_note() == note,
            r.spec_tempo() is None,
            r.sounding() == 1,
            r.target() == 1,
            !r.spec_fading(),
            r.at() == 0,
    {
        DelayTap { rate, write: 0, taps: 1, fading_to: 0, fading: false, note, tempo: None }
    }

    /// Length of the line in samples.
    pub fn line_len(&self) -> (r: u64)
        ensures
            r == line_length(self.spec_rate()),
            r >= 2,
    {
        self.rate as u64 * 2 + 2
    }

    /// Tap distance in samples that is currently sounding.
    pub fn tap_samples(&self) -> (r: u64)
        ensures
            r == self.sounding(),
    {
        self.taps
    }

    /// Tap distance the delay is heading for: the number to report and to reason with, because the
    /// crossfade only advances while the chain is actually processing.
    pub fn target_tap_samples(&self) -> (r: u64)
        ensures
            r == self.target(),
    {
        if self.fading {
            self.fading_to
        } else {
            self.taps
        }
    }

    pub fn note(&self) -> (r: DelayNote)
        ensures
            r == self.spec_note(),
    {
        self.note
    }

    /// Whether two taps are being read.
    pub fn is_fading(&self) -> (r: bool)
        ensures
            r == self.spec_fading(),
    {
        self.fading
    }

    fn wanted(&self, bpm: Bpm, note: DelayNote) -> (r: u64)
        requires
            bpm.valid(),
        ensures
            r == tap_for(self.spec_rate(), bpm, note),
            1 <= r < line_length(self.spec_rate()),
    {
        let (up, down) = note.factor();
        let scaled: u128 = bpm.compute_scaled();
        proof {
            let c: int = self.rate * 60 * FRACTION;
            assert(c <= 0x1_0000_0000 * 60 * 4503599627370496) by (nonlinear_arith)
                requires
                    c == self.rate * 60 * 4503599627370496,
                    self.rate <= 0x1_0000_0000,
            ;
            assert(0 <= c * up <= 0x1_0000_0000 * 60 * 4503599627370496 * 3) by (nonlinear_arith)
                requires
                    0 <= c <= 0x1_0000_0000 * 60 * 4503599627370496,
                    1 <= up <= 3,
            ;
            assert(4503599627370496 <= scaled * down <= 400 * 4503599627370496 * 4)
                by (nonlinear_arith)
                requires
                    4503599627370496 <= scaled <= 400 * 4503599627370496,
                    1 <= down <= 4,
            ;
        }
        let a: u128 = self.rate as u128 * 60 * FRACTION as u128 * up;
        let b: u128 = scaled * down;
        let exact: u128 = (2 * a + b) / (2 * b);
        let most: u64 = self.line_len() - 1;
        if exact < 1 {
            1
        } else if exact > most as u128 {
            most
        } else {
            exact as u64
        }
    }

    /// Head for a new tap. A second change while a fade is running finishes the running one at once
    /// rather than juggling three taps.
    fn retune(&mut self, wanted: u64)
        requires
            1 <= wanted < line_length(old(self).spec_rate()),
            old(self).spec_tempo() is Some,
        ensures
            final(self).target() == wanted,
            final(self).sounding() == old(self).target(),
            final(self).spec_fading() == (wanted != old(self).target()),
            final(self).spec_rate() == old(self).spec_rate(),
            final(self).spec_note() == old(self).spec_note(),
            final(self).spec_tempo() == old(self).spec_tempo(),
            final(self).at() == old(self).at(),
    {
        proof {
            use_type_invariant(&*self);
        }
        let mut next = *self;
        if next.fading {
            next = DelayTap { taps: next.fading_to, ..next };
        }
        if wanted == next.taps {
            next = DelayTap { fading: false, ..next };
        } else {
            next = DelayTap { fading_to: wanted, fading: true, ..next };
        }
        *self = next;
    }

    /// Set the note value. Without a tempo there is nothing to tune to yet.
    pub fn set_note(&mut self, note: DelayNote)
        ensures
            renoted(*old(self), *final(self), note),
    {
        proof {
            use_type_invariant(&*self);
        }
        *self = DelayTap { note, ..*self };
        if let Some(bpm) = self.tempo {
            let wanted: u64 = self.wanted(bpm, note);
            self.retune(wanted);
        }
    }

    /// Tell the delay the tempo. Called once per audio block; doing nothing when the value has not
    /// changed is what keeps it free. The very first tempo sets the tap without a crossfade.
    pub fn set_tempo(&mut self, bpm: Bpm)
        requires
            bpm.valid(),
        ensures
            retuned(*old(self), *final(self), bpm),
    {
        proof {
            use_type_invariant(&*self);
        }
        let wanted: u64 = self.wanted(bpm, self.note);
        match self.tempo {
            Some(before) => {
                if before.bits != bpm.bits {
                    *self = DelayTap { tempo: Some(bpm), ..*self };
                    self.retune(wanted);
                }
            },
            None => {
                *self = DelayTap { tempo: Some(bpm), taps: wanted, fading: false, ..*self };
            },
        }
    }

    /// The crossfade has arrived: only the new tap is read from now on.
    pub fn finish_fade(&mut self)
        ensures
            faded(*old(self), *final(self)),
            final(self).sounding() == old(self).target(),
            final(self).target() == old(self).target(),
            !final(self).spec_fading(),
            final(self).spec_rate() == old(self).spec_rate(),
            final(self).spec_note() == old(self).spec_note(),
            final(self).spec_tempo() == old(self).spec_tempo(),
            final(self).at() == old(self).at(),
    {
        proof {
            use_type_invariant(&*self);
        }
        if self.fading {
            *self = DelayTap { taps: self.fading_to, fading: false, ..*self };
        }
    }

    /// The line has been silenced: it is written from its start again, and a crossfade that was
    /// running is over without having arrived.
    pub fn clear(&mut self)
        ensures
            emptied(*old(self), *final(self)),
            final(self).at() == 0,
            !final(self).spec_fading(),
            final(self).sounding() == old(self).sounding(),
            final(self).target() == old(self).sounding(),
            final(self).spec_rate() == old(self).spec_rate(),
            final(self).spec_note() == old(self).spec_note(),
            final(self).spec_tempo() == old(self).spec_tempo(),
    {
        proof {
            use_type_invariant(&*self);
        }
        *self = DelayTap { write: 0, fading: false, ..*self };
    }

    /// The slot of the line that holds the sample `distance` samples back. A distance beyond the
    /// line reads the oldest sample there is.
    pub fn read_index(&self, distance: u64) -> (r: u64)
        ensures
            r == slot_behind(self.at(), distance as int, line_length(self.spec_rate())),
            r < line_length(self.spec_rate()),
            distance < line_length(self.spec_rate()) && distance <= self.at() ==> r == self.at()
                - distance,
            distance < line_length(self.spec_rate()) && distance > self.at() ==> r == self.at()
                - distance + line_length(self.spec_rate()),
            distance >= line_length(self.spec_rate()) ==> r == slot_after(
                self.at(),
                line_length(self.spec_rate()),
            ),
    {
        proof {
            use_type_invariant(self);
        }
        let len: u64 = self.line_len();
        let d: u64 = if distance < len {
            distance
        } else {
            len - 1
        };
        let sum: u64 = self.write + len - d;
        if sum >= len {
            sum - len
        } else {
            sum
        }
    }

    /// One sample further.
    pub fn advance(&mut self)
        ensures
            final(self).at() == slot_after(old(self).at(), line_length(old(self).spec_rate())),
            final(self).sounding() == old(self).sounding(),
            final(self).target() == old(self).target(),
            final(self).spec_fading() == old(self).spec_fading(),
            final(self).spec_rate() == old(self).spec_rate(),
            final(self).spec_note() == old(self).spec_note(),
            final(self).spec_tempo() == old(self).spec_tempo(),
    {
        proof {
            use_type_invariant(&*self);
        }
        let len: u64 = self.line_len();
        let next: u64 = if self.write + 1 >= len {
            0
        } else {
            self.write + 1
        };
        *self = DelayTap { write: next, ..*self };
    }
}

// ---------------------------------------------------------------------------------------------
// Laws
// ---------------------------------------------------------------------------------------------

/// A tap always lies inside the line.
pub proof fn a_tap_fits_the_line(rate: u32, bpm: Bpm, note: DelayNote)
    ensures
        1 <= tap_for(rate as int, bpm, note) < line_length(rate as int),
{
}

proof fn lemma_slot_later(slot: int, steps: nat, len: int)
    requires
        0 <= slot < len,
        steps < len,
    ensures
        slot_later(slot, steps, len) == (if slot + steps < len {
            slot + steps
        } else {
            slot + steps - len
        }),
    decreases steps,
{
    if steps > 0 {
        lemma_slot_later(slot, (steps - 1) as nat, len);
    }
}

/// What is read at a distance is what was written that many samples ago: the slot the write
/// pointer stood on `distance` steps earlier.
pub proof fn reading_back_finds_the_slot_written_then(len: int, then: int, distance: nat)
    requires
        0 <= then < len,
        distance < len,
    ensures
        ({
            let now = slot_later(then, distance, len);
            let slot = if distance <= now {
                now - distance
            } else {
                now - distance + len
            };
            slot == then
        }),
{
    lemma_slot_later(then, distance, len);
}

/// A note value lasts its share of a quarter note at the tempo, to within half a sample.
pub proof fn a_note_lasts_its_share_of_a_quarter(rate: u32, bpm: Bpm, note: DelayNote)
    requires
        bpm.valid(),
    ensures
        ({
            let per = bpm.scaled() * note.share().1;
            let exact = rate * 60 * 4503599627370496 * note.share().0;
            -per < 2 * (note_samples(rate as int, bpm, note) * per - exact) <= per
        }),
{
    let a = rate * 60 * FRACTION * note.share().0;
    let b = bpm.scaled() * note.share().1;
    a_valid_tempo_has_a_scale(bpm);
    assert(b > 0) by (nonlinear_arith)
        requires
            b == bpm.scaled() * note.share().1,
            bpm.scaled() > 0,
            note.share().1 > 0,
    ;
    rounding_is_to_the_nearest(1, a, b);
    assert(1 * a == a) by (nonlinear_arith);
}

/// The tap is the length of the note, unless that is less than one sample or more than the line
/// holds; then it is the nearest that fits.
pub proof fn a_tap_is_the_note_where_it_fits(rate: u32, bpm: Bpm, note: DelayNote)
    ensures
        ({
            let exact = note_samples(rate as int, bpm, note);
            let tap = tap_for(rate as int, bpm, note);
            &&& 1 <= exact <= rate * MAX_DELAY_SECONDS + 1 ==> tap == exact
            &&& exact < 1 ==> tap == 1
            &&& exact > rate * MAX_DELAY_SECONDS + 1 ==> tap == rate * MAX_DELAY_SECONDS + 1
        }),
{
}

/// A delay that knows the tempo heads for the tap of its note at that tempo, after a new tempo as
/// after a new note, and fades over exactly where the tap moves. What stands on the line stays.
pub proof fn a_delay_follows_tempo_and_note(
    before: DelayTap,
    after: DelayTap,
    bpm: Bpm,
    note: DelayNote,
)
    ensures
        retuned(before, after, bpm) && before.spec_tempo() != Some(bpm) ==> after.target()
            == tap_for(before.spec_rate(), bpm, before.spec_note()) && after.spec_tempo() == Some(
            bpm,
        ) && after.spec_note() == before.spec_note() && after.at() == before.at(),
        retuned(before, after, bpm) && before.spec_tempo() == Some(bpm) ==> after == before,
        renoted(before, after, note) ==> after.spec_note() == note && after.spec_tempo()
            == before.spec_tempo() && after.at() == before.at(),
        renoted(before, after, note) && before.spec_tempo() == Some(bpm) ==> after.target()
            == tap_for(before.spec_rate(), bpm, note) && (after.spec_fading() <==> after.target()
            != before.target()),
        renoted(before, after, note) && before.spec_tempo() is None ==> after.target()
            == before.target(),
{
}

/// A slot is followed by the next one, and the last by the first.
pub proof fn slots_go_round(slot: int, len: int)
    requires
        0 <= slot < len,
    ensures
        slot < len - 1 ==> slot_after(slot, len) == slot + 1,
        slot == len - 1 ==> slot_after(slot, len) == 0,
{
}

/// What is read at a distance is what was written that many steps ago, and a distance beyond the line
/// reads the oldest slot there is.
pub proof fn a_tap_reads_what_was_written_then(len: int, then: int, distance: nat, beyond: int)
    requires
        0 <= then < len,
        distance < len,
        beyond >= len,
    ensures
        slot_behind(slot_later(then, distance, len), distance as int, len) == then,
        slot_behind(then, beyond, len) == slot_behind(then, len - 1, len),
{
    reading_back_finds_the_slot_written_then(len, then, distance);
}

/// A cross-fade ends on the tap it was heading for, and silencing the line keeps the tap that is
/// heard.
pub proof fn a_fade_ends_where_it_headed(before: DelayTap, after: DelayTap)
    ensures
        faded(before, after) ==> after.sounding() == before.target() && after.target()
            == before.target() && after.at() == before.at(),
        emptied(before, after) ==> after.sounding() == before.sounding() && after.target()
            == before.sounding() && after.at() == 0,
        faded(before, after) || emptied(before, after) ==> !after.spec_fading()
            && after.spec_note() == before.spec_note() && after.spec_tempo()
            == before.spec_tempo() && after.sounding() == after.target(),
{
}

/// A new fade starts from the tap the last one headed for, so that nothing is ever faded between more
/// than two; the first tempo of all is taken up without one, and a note without a tempo changes
/// nothing that is heard.
pub proof fn a_fade_starts_from_where_the_last_one_headed(
    before: DelayTap,
    after: DelayTap,
    bpm: Bpm,
    note: DelayNote,
)
    ensures
        renoted(before, after, note) && before.spec_tempo() is Some ==> after.sounding()
            == before.target(),
        renoted(before, after, note) && before.spec_tempo() is None ==> after.sounding()
            == before.sounding() && after.spec_fading() == before.spec_fading(),
        retuned(before, after, bpm) && before.spec_tempo() is Some && before.spec_tempo() != Some(
            bpm,
        ) ==> after.sounding() == before.target() && (after.spec_fading() <==> after.target()
            != before.target()),
        retuned(before, after, bpm) && before.spec_tempo() is None ==> after.sounding()
            == after.target() && !after.spec_fading(),
        renoted(before, after, note) || retuned(before, after, bpm) ==> after.spec_rate()
            == before.spec_rate() && after.at() == before.at(),
{
}

} // verus!
