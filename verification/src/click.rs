//! The free-running click of the measuring tools. Its position comes from a sample counter inside
//! the audio callback, never from the wall clock.
use vstd::prelude::*;
use vstd::string::*;
use crate::metro::{tone_of, Metronome, Tone};
use crate::text::{decimal, push_decimal};
use crate::timeline::{
    beats_are_strictly_ordered,
    tempo_error,
    tempo_message,
    the_first_beat_is_at_zero,
    Bpm,
    TempoError,
    TimeSignature,
    Timeline,
    BPM_HIGHEST,
    BPM_LOWEST,
};

verus! {

/// What the click counts.
#[derive(Clone, Copy, Debug, PartialEq, Eq, Structural)]
pub struct ClickSpec {
    pub bpm: Bpm,
    pub beats_per_bar: u32,
    pub beat_unit: u32,
    /// 0 counts on without an end.
    pub bars: u32,
}

/// What is wrong with a click, whatever device plays it.
pub open spec fn click_error(spec: ClickSpec) -> Option<TempoError> {
    let signature = TimeSignature {
        beats_per_bar: spec.beats_per_bar,
        beat_unit: spec.beat_unit,
    };
    if !spec.bpm.valid() {
        Some(TempoError::Bpm)
    } else if spec.beats_per_bar == 0 {
        Some(TempoError::BeatsPerBar)
    } else if !signature.unit_is_a_note_value() {
        Some(TempoError::BeatUnit(spec.beat_unit))
    } else {
        None
    }
}

impl ClickSpec {
    pub open spec fn metre(self) -> TimeSignature {
        TimeSignature { beats_per_bar: self.beats_per_bar, beat_unit: self.beat_unit }
    }

    /// How many beats there are to play.
    pub open spec fn beats(self) -> Option<int> {
        if self.bars == 0 {
            None
        } else {
            Some(self.bars * self.beats_per_bar)
        }
    }

    /// Check a click before a device is opened for it. `shown` is the tempo as it is written.
    pub fn validate(&self, shown: &str) -> (r: Result<(), String>)
        ensures
            match click_error(*self) {
                Some(error) => r matches Err(e) && e@ == tempo_message(error, shown@),
                None => r is Ok,
            },
    {
        if self.bpm.bits < BPM_LOWEST || self.bpm.bits > BPM_HIGHEST {
            return Err(TempoError::Bpm.message(shown));
        }
        if self.beats_per_bar == 0 {
            return Err(TempoError::BeatsPerBar.message(shown));
        }
        let unit: u32 = self.beat_unit;
        if !(unit == 1 || unit == 2 || unit == 4 || unit == 8 || unit == 16 || unit == 32) {
            return Err(TempoError::BeatUnit(unit).message(shown));
        }
        Ok(())
    }

    /// `endlos`, or how many bars there are.
    pub fn length_text(&self) -> (r: String)
        ensures
            r@ == (if self.bars == 0 {
                "endlos"@
            } else {
                decimal(self.bars as nat) + " Takte"@
            }),
    {
        if self.bars == 0 {
            "endlos".to_owned()
        } else {
            let mut r = String::new();
            push_decimal(&mut r, self.bars as u64);
            r.append(" Takte");
            r
        }
    }
}

/// Sample-accurate click generator: where it stands, one sample after the other.
pub struct ClickGen {
    timeline: Timeline,
    total_beats: Option<u64>,
    frame: u64,
    next_beat: u64,
    next_frame: u64,
    /// How far the running tone has got; the length of a tone where none is running.
    played: u64,
    tone: u64,
    downbeat: bool,
    done: bool,
}

/// A click generator, as mathematics.
pub struct ClickModel {
    pub timeline: Timeline,
    pub total_beats: Option<int>,
    pub frame: int,
    pub next_beat: int,
    pub played: int,
    pub tone: int,
    pub downbeat: bool,
    pub done: bool,
}

impl ClickModel {
    /// Whether there are beats left to play.
    pub open spec fn going(self) -> bool {
        match self.total_beats {
            Some(total) => self.next_beat < total,
            None => true,
        }
    }

    /// A beat is played when its sample comes: it is never late.
    pub open spec fn wf(self) -> bool {
        &&& self.timeline.wf()
        &&& self.frame >= 0
        &&& self.next_beat >= 0
        &&& 0 <= self.played <= self.tone
        &&& self.going() ==> self.frame <= self.timeline.beat_at(self.next_beat)
    }

    /// Whether a tone begins with the next sample.
    pub open spec fn starts(self) -> bool {
        self.going() && self.frame == self.timeline.beat_at(self.next_beat)
    }

    /// The generator with the tone begun that begins with the next sample.
    pub open spec fn begun(self) -> ClickModel {
        if self.starts() {
            ClickModel {
                downbeat: self.next_beat % self.timeline.per_bar() == 0,
                played: 0,
                next_beat: self.next_beat + 1,
                ..self
            }
        } else {
            self
        }
    }

    /// What sounds with the next sample.
    pub open spec fn heard(self) -> Option<Tone> {
        let now = self.begun();
        if now.played < now.tone {
            Some(Tone { offset: now.played as u64, downbeat: now.downbeat })
        } else {
            None
        }
    }

    /// The generator one sample later.
    pub open spec fn stepped(self) -> ClickModel {
        let now = self.begun();
        ClickModel {
            frame: now.frame + 1,
            played: if now.played < now.tone {
                now.played + 1
            } else {
                now.played
            },
            done: self.done || (now.played >= now.tone && !self.going()),
            ..now
        }
    }
}

impl View for ClickGen {
    type V = ClickModel;

    closed spec fn view(&self) -> ClickModel {
        ClickModel {
            timeline: self.timeline,
            total_beats: match self.total_beats {
                Some(total) => Some(total as int),
                None => None,
            },
            frame: self.frame as int,
            next_beat: self.next_beat as int,
            played: self.played as int,
            tone: self.tone as int,
            downbeat: self.downbeat,
            done: self.done,
        }
    }
}

impl ClickGen {
    /// The position of the next beat is worked out ahead.
    pub closed spec fn prepared(self) -> bool {
        self.next_frame == self.timeline.beat_at(self.next_beat as int)
    }

    pub fn new(spec: ClickSpec, sample_rate: u32) -> (r: Self)
        requires
            tempo_error(sample_rate, spec.bpm, spec.metre()) is None,
        ensures
            r.prepared(),
            r@.wf(),
            r@.timeline.rate() == sample_rate,
            r@.timeline.tempo() == spec.bpm,
            r@.timeline.metre() == spec.metre(),
            r@.total_beats == spec.beats(),
            r@.frame == 0,
            r@.next_beat == 0,
            r@.tone == tone_of(sample_rate),
            r@.played == r@.tone,
            !r@.done,
    {
        let timeline = Timeline::new(
            sample_rate,
            spec.bpm,
            TimeSignature::new(spec.beats_per_bar, spec.beat_unit),
        );
        proof {
            use_type_invariant(&timeline);
            the_first_beat_is_at_zero(timeline);
            assert(0 <= spec.bars * spec.beats_per_bar <= 0xffff_ffff * 0xffff_ffff)
                by (nonlinear_arith)
                requires
                    0 <= spec.bars <= 0xffff_ffff,
                    0 <= spec.beats_per_bar <= 0xffff_ffff,
            ;
        }
        let tone: u64 = Metronome::new(sample_rate).tone_len();
        ClickGen {
            timeline,
            total_beats: if spec.bars == 0 {
                None
            } else {
                Some(spec.bars as u64 * spec.beats_per_bar as u64)
            },
            frame: 0,
            next_beat: 0,
            next_frame: 0,
            played: tone,
            tone,
            downbeat: false,
            done: false,
        }
    }

    /// True once the requested number of bars has been played out completely.
    pub fn is_done(&self) -> (r: bool)
        ensures
            r == self@.done,
    {
        self.done
    }

    /// What sounds with the next sample.
    pub fn next_tone(&mut self) -> (r: Option<Tone>)
        requires
            old(self).prepared(),
            old(self)@.wf(),
            old(self)@.frame < u64::MAX,
            old(self)@.timeline.reaches(old(self)@.next_beat + 1),
        ensures
            final(self).prepared(),
            final(self)@.wf(),
            final(self)@ == old(self)@.stepped(),
            r == old(self)@.heard(),
    {
        let ghost before = self@;
        let going: bool = match self.total_beats {
            Some(total) => self.next_beat < total,
            None => true,
        };
        if going && self.frame >= self.next_frame {
            self.downbeat = self.next_beat % self.timeline.beats_per_bar() == 0;
            self.played = 0;
            self.next_beat = self.next_beat + 1;
            self.next_frame = self.timeline.beat_start(self.next_beat);
            proof {
                beats_are_strictly_ordered(
                    before.timeline,
                    before.next_beat,
                    before.next_beat + 1,
                );
            }
        }
        let tone: Option<Tone> = if self.played < self.tone {
            let tone = Tone { offset: self.played, downbeat: self.downbeat };
            self.played = self.played + 1;
            Some(tone)
        } else {
            if !going {
                self.done = true;
            }
            None
        };
        self.frame = self.frame + 1;
        tone
    }
}

// ---------------------------------------------------------------------------------------------
// Laws
// ---------------------------------------------------------------------------------------------

/// A tone begins on the very sample its beat is due, and with no other.
pub proof fn a_click_is_neither_early_nor_late(click: ClickModel)
    requires
        click.wf(),
    ensures
        click.stepped().next_beat != click.next_beat <==> click.going() && click.frame
            == click.timeline.beat_at(click.next_beat),
        click.starts() && click.tone > 0 ==> click.heard() == Some(
            Tone { offset: 0, downbeat: click.next_beat % click.timeline.per_bar() == 0 },
        ),
{
}

/// A click of some bars plays its beats and no more, and it is done only when the last tone is over.
pub proof fn a_counted_click_ends(click: ClickModel, total: int)
    requires
        click.wf(),
        click.total_beats == Some(total),
        click.next_beat <= total,
        click.done ==> click.next_beat == total && click.played == click.tone,
    ensures
        click.stepped().next_beat <= total,
        click.stepped().done ==> click.stepped().next_beat == total && click.stepped().played
            == click.stepped().tone,
{
}

/// A tone that has begun runs on sample by sample until it is over or the next one begins, and then
/// nothing sounds.
pub proof fn a_tone_runs_on(click: ClickModel)
    requires
        click.wf(),
        !click.starts(),
    ensures
        click.played < click.tone ==> click.heard() == Some(
            Tone { offset: click.played as u64, downbeat: click.downbeat },
        ) && click.stepped().played == click.played + 1,
        click.played == click.tone ==> click.heard() is None && click.stepped().played
            == click.played,
        click.stepped().downbeat == click.downbeat,
        click.stepped().next_beat == click.next_beat,
        click.stepped().frame == click.frame + 1,
{
}

/// A click is done once its last tone is over, stays done, and one without an end never is.
pub proof fn a_click_is_done_when_all_has_sounded(click: ClickModel)
    requires
        click.wf(),
    ensures
        click.done ==> click.stepped().done,
        !click.going() && click.played == click.tone ==> click.stepped().done,
        click.total_beats is None && !click.done ==> !click.stepped().done,
        click.going() && !click.done ==> !click.stepped().done,
{
}

/// A counted click has as many beats as its bars hold, and a click of no bars has no end.
pub proof fn a_click_counts_its_bars(click: ClickSpec)
    ensures
        click.bars == 0 <==> click.beats() is None,
        click.beats() matches Some(n) ==> n == click.bars * click.beats_per_bar,
{
}

/// A click is refused exactly where its tempo is no number from 1 to 400, a bar has no beat, or the
/// beat is no note value, and for the first of these.
pub proof fn a_click_is_accepted_where_it_can_be_counted(click: ClickSpec)
    ensures
        ({
            let in_range = 0x3ff0_0000_0000_0000 <= click.bpm.bits <= 0x4079_0000_0000_0000;
            let unit = click.beat_unit;
            let note = unit == 1 || unit == 2 || unit == 4 || unit == 8 || unit == 16 || unit
                == 32;
            &&& click_error(click) is None <==> in_range && click.beats_per_bar > 0 && note
            &&& !in_range ==> click_error(click) == Some(TempoError::Bpm)
            &&& in_range && click.beats_per_bar == 0 ==> click_error(click) == Some(
                TempoError::BeatsPerBar,
            )
            &&& in_range && click.beats_per_bar > 0 && !note ==> click_error(click) == Some(
                TempoError::BeatUnit(unit),
            )
        }),
{
}

} // verus!
