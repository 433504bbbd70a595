//! Metronome as a pure function of sample position.
//!
//! The click is the reference the musician plays to, and it has to stay locked to the engine's
//! timeline even across a tempo change or a rendering that is split into segments by a command.
//! Deriving every tone from the absolute position removes the whole class of "the counter got out of
//! step" bugs. What is decided here is where a tone sounds, how far it has got and which of the two
//! it is; its waveform is rendered from that.
use vstd::prelude::*;
use crate::timeline::{
    a_position_lies_in_its_beat,
    beats_are_strictly_ordered,
    the_first_beat_is_at_zero,
    Timeline,
    MAX_BEAT,
};

verus! {

/// Length of a tone of 30 ms in samples, rounded.
pub open spec fn tone_of(sample_rate: u32) -> int {
    let rounded = (6 * sample_rate + 100) / 200;
    if rounded < 1 {
        1
    } else {
        rounded
    }
}

/// What sounds at a position.
#[derive(Clone, Copy, Debug, PartialEq, Eq, Structural)]
pub struct Tone {
    /// Samples since the tone began.
    pub offset: u64,
    /// The first beat of a bar sounds higher.
    pub downbeat: bool,
}

#[derive(Clone, Copy, Debug, PartialEq, Eq, Structural)]
pub struct Metronome {
    tone: u64,
}

impl Metronome {
    pub closed spec fn tone(self) -> int {
        self.tone as int
    }

    /// The tone at a position of the timeline.
    pub open spec fn sounding(self, timeline: Timeline, pos: int) -> Option<Tone> {
        let beat = timeline.beat_of(pos);
        let n = pos - timeline.beat_at(beat);
        if n >= self.tone() {
            None
        } else {
            Some(Tone { offset: n as u64, downbeat: beat % timeline.per_bar() == 0 })
        }
    }

    pub fn new(sample_rate: u32) -> (r: Self)
        ensures
            r.tone() == tone_of(sample_rate),
    {
        let rounded: u64 = (6 * sample_rate as u64 + 100) / 200;
        Metronome {
            tone: if rounded < 1 {
                1
            } else {
                rounded
            },
        }
    }

    /// Length of one click tone in samples, envelope included.
    ///
    /// The calibration uses it to size the blanking time of its onset detection, so that the decay
    /// of one click cannot be counted as a second one.
    pub fn tone_len(&self) -> (r: u64)
        ensures
            r == self.tone(),
    {
        self.tone
    }

    /// What sounds at absolute sample position `pos`.
    pub fn tone_at(&self, timeline: &Timeline, pos: u64) -> (r: Option<Tone>)
        requires
            pos < MAX_BEAT,
        ensures
            r == self.sounding(*timeline, pos as int),
    {
        let beat: u64 = timeline.beat_index_at(pos);
        proof {
            use_type_invariant(timeline);
            a_position_lies_in_its_beat(*timeline, pos as int);
        }
        let offset: u64 = pos - timeline.beat_start(beat);
        if offset >= self.tone {
            return None;
        }
        Some(Tone { offset, downbeat: beat % timeline.beats_per_bar() == 0 })
    }
}

/// A tone begins exactly on every beat, runs for its length or until the next beat, and is the higher
/// one on the first beat of a bar. Nothing sounds anywhere else.
pub proof fn clicks_sit_on_the_beat_grid(m: Metronome, t: Timeline, beat: int, n: int)
    requires
        t.wf(),
        beat >= 0,
        0 <= n < t.beat_at(beat + 1) - t.beat_at(beat),
    ensures
        m.sounding(t, t.beat_at(beat) + n) == (if n < m.tone() {
            Some(Tone { offset: n as u64, downbeat: beat % t.per_bar() == 0 })
        } else {
            None
        }),
{
    let pos = t.beat_at(beat) + n;
    the_first_beat_is_at_zero(t);
    if beat > 0 {
        beats_are_strictly_ordered(t, 0, beat);
    }
    a_position_lies_in_its_beat(t, pos);
    let k = t.beat_of(pos);
    if k < beat {
        if k + 1 < beat {
            beats_are_strictly_ordered(t, k + 1, beat);
        }
    } else if k > beat {
        if beat + 1 < k {
            beats_are_strictly_ordered(t, beat + 1, k);
        }
    }
}

/// A tone lasts thirty milliseconds to within half a sample, and at least one sample.
pub proof fn a_tone_lasts_thirty_milliseconds(sample_rate: u32)
    ensures
        tone_of(sample_rate) >= 1,
        tone_of(sample_rate) > 1 ==> -500 <= 1000 * tone_of(sample_rate) - 30 * sample_rate <= 500,
        sample_rate >= 17 ==> -500 <= 1000 * tone_of(sample_rate) - 30 * sample_rate <= 500,
{
}

} // verus!
