//! MIDI: what a control is called, what it can be bound to, and the stream of reports to the window.
//!
//! # Why MIDI events do not ride in the status snapshot
//!
//! The status event is a sampling of a continuous state, and older snapshots are thrown away. MIDI
//! is the opposite: a rare, bursty stream of discrete facts where every single one matters. So MIDI
//! travels on its own event, queued rather than sampled.
//!
//! What it does borrow from the status path is the rate discipline: a knob sweep produces about a
//! hundred events a second. So reports are collected and emitted at most once per window, except
//! when the batch contains something discrete (a pad, a refusal, a learned binding), which is
//! flushed at once because that is what the eye is waiting for.
use vstd::prelude::*;
use vstd::string::*;
use crate::bus::{Bus, BusSend, TrackSource};
use crate::fx::{FxParam, FxPreset, FxSlot};
use crate::schedule::{push_quoted, quoted, Quantize};
use crate::single::Single;
use crate::text::{
    decimal,
    decimal_reads_back,
    is_digit,
    last_place,
    lemma_decimal_digits,
    parse_unsigned,
    push_decimal,
    same_text,
    split_at_last,
    stands_at,
    unsigned_value,
};
use crate::timeline::Bpm;

verus! {

// ---------------------------------------------------------------------------------------------
// Controls and events
// ---------------------------------------------------------------------------------------------

#[derive(Clone, Copy, Debug, PartialEq, Eq, Structural)]
pub enum MidiIdKind {
    Note,
    Cc,
    Bend,
}

/// One control of a controller.
#[derive(Clone, Copy, Debug, PartialEq, Eq, Structural)]
pub struct MidiId {
    pub kind: MidiIdKind,
    pub channel: u8,
    /// Note or controller number; 0 for the pitch bend, of which a channel has one.
    pub number: u8,
}

impl MidiId {
    /// `ch1.note36`: the string a profile file is keyed by.
    pub open spec fn key(self) -> Seq<char> {
        "ch"@ + decimal(self.channel as nat) + (match self.kind {
            MidiIdKind::Note => ".note"@ + decimal(self.number as nat),
            MidiIdKind::Cc => ".cc"@ + decimal(self.number as nat),
            MidiIdKind::Bend => ".bend"@,
        })
    }

    /// `Pad 36`, `CC 3`, `Bend`: the badge on a bound control.
    pub open spec fn badge(self) -> Seq<char> {
        match self.kind {
            MidiIdKind::Note => "Pad "@ + decimal(self.number as nat),
            MidiIdKind::Cc => "CC "@ + decimal(self.number as nat),
            MidiIdKind::Bend => "Bend"@,
        }
    }

    /// Whether a controller can have this control: sixteen channels, counted from one, and 128
    /// numbers. A channel has one pitch bend.
    pub open spec fn possible(self) -> bool {
        &&& 1 <= self.channel <= 16
        &&& self.number <= 127
        &&& self.kind is Bend ==> self.number == 0
    }

    /// Read the string a profile file is keyed by.
    pub fn parse(text: &str) -> (r: Result<Self, String>)
        ensures
            match id_of(text@) {
                Some(id) => r == Ok::<MidiId, String>(id),
                None => r matches Err(e) && e@ == unknown_id_text(text@),
            },
    {
        if let Some((front, back)) = split_at_last(text, '.') {
            if let Some(number) = strip_front(front, "ch") {
                if let Some(channel) = parse_unsigned(number, 16) {
                    if channel >= 1 {
                        if let Some(id) = parse_control(channel as u8, back) {
                            return Ok(id);
                        }
                    }
                }
            }
        }
        let mut e = String::new();
        push_quoted(&mut e, text);
        e.append(" ist kein MIDI-Bedienelement. Erwartet wird zum Beispiel ch1.note36.");
        assert(e@ =~= unknown_id_text(text@));
        Err(e)
    }

    pub fn note(channel: u8, number: u8) -> (r: Self)
        ensures
            r == (MidiId { kind: MidiIdKind::Note, channel, number }),
    {
        MidiId { kind: MidiIdKind::Note, channel, number }
    }

    pub fn cc(channel: u8, number: u8) -> (r: Self)
        ensures
            r == (MidiId { kind: MidiIdKind::Cc, channel, number }),
    {
        MidiId { kind: MidiIdKind::Cc, channel, number }
    }

    pub fn bend(channel: u8) -> (r: Self)
        ensures
            r == (MidiId { kind: MidiIdKind::Bend, channel, number: 0 }),
    {
        MidiId { kind: MidiIdKind::Bend, channel, number: 0 }
    }

    pub fn name(&self) -> (r: String)
        ensures
            r@ == self.key(),
    {
        let mut r = String::new();
        r.append("ch");
        push_decimal(&mut r, self.channel as u64);
        match self.kind {
            MidiIdKind::Note => {
                r.append(".note");
                push_decimal(&mut r, self.number as u64);
            },
            MidiIdKind::Cc => {
                r.append(".cc");
                push_decimal(&mut r, self.number as u64);
            },
            MidiIdKind::Bend => {
                r.append(".bend");
            },
        }
        assert(r@ =~= self.key());
        r
    }

    pub fn short(&self) -> (r: String)
        ensures
            r@ == self.badge(),
    {
        let mut r = String::new();
        match self.kind {
            MidiIdKind::Note => {
                r.append("Pad ");
                push_decimal(&mut r, self.number as u64);
            },
            MidiIdKind::Cc => {
                r.append("CC ");
                push_decimal(&mut r, self.number as u64);
            },
            MidiIdKind::Bend => {
                r.append("Bend");
            },
        }
        assert(r@ =~= self.badge());
        r
    }
}

/// What follows a given beginning of a text.
pub open spec fn after(text: Seq<char>, front: Seq<char>) -> Option<Seq<char>> {
    if stands_at(text, front, 0) {
        Some(text.subrange(front.len() as int, text.len() as int))
    } else {
        None
    }
}

fn strip_front<'a>(text: &'a str, front: &str) -> (r: Option<&'a str>)
    ensures
        match after(text@, front@) {
            Some(rest) => r matches Some(found) && found@ == rest,
            None => r is None,
        },
{
    let n: usize = text.unicode_len();
    let m: usize = front.unicode_len();
    if m <= n && same_text(text.substring_char(0, m), front) {
        return Some(text.substring_char(m, n));
    }
    None
}

/// The control a name stands for on its channel: `note36`, `cc3` or `bend`.
pub open spec fn control_of(channel: u8, name: Seq<char>) -> Option<MidiId> {
    if name == "bend"@ {
        Some(MidiId { kind: MidiIdKind::Bend, channel, number: 0 })
    } else if after(name, "note"@) is Some {
        match unsigned_value(after(name, "note"@)->0, 127) {
            Some(n) => Some(MidiId { kind: MidiIdKind::Note, channel, number: n as u8 }),
            None => None,
        }
    } else if after(name, "cc"@) is Some {
        match unsigned_value(after(name, "cc"@)->0, 127) {
            Some(n) => Some(MidiId { kind: MidiIdKind::Cc, channel, number: n as u8 }),
            None => None,
        }
    } else {
        None
    }
}

fn parse_control(channel: u8, name: &str) -> (r: Option<MidiId>)
    ensures
        r == control_of(channel, name@),
{
    if same_text(name, "bend") {
        return Some(MidiId::bend(channel));
    }
    if let Some(number) = strip_front(name, "note") {
        return match parse_unsigned(number, 127) {
            Some(n) => Some(MidiId::note(channel, n as u8)),
            None => None,
        };
    }
    if let Some(number) = strip_front(name, "cc") {
        return match parse_unsigned(number, 127) {
            Some(n) => Some(MidiId::cc(channel, n as u8)),
            None => None,
        };
    }
    None
}

/// The control a key of a profile file stands for: `ch`, the channel, a dot and the control.
pub open spec fn id_of(text: Seq<char>) -> Option<MidiId> {
    match last_place(text, '.') {
        None => None,
        Some(at) => match after(text.subrange(0, at), "ch"@) {
            None => None,
            Some(number) => match unsigned_value(number, 16) {
                Some(channel) if channel >= 1 => control_of(
                    channel as u8,
                    text.subrange(at + 1, text.len() as int),
                ),
                _ => None,
            },
        },
    }
}

/// The sentence about a key that names no control.
pub open spec fn unknown_id_text(text: Seq<char>) -> Seq<char> {
    quoted(text) + " ist kein MIDI-Bedienelement. Erwartet wird zum Beispiel ch1.note36."@
}

/// One incoming message.
#[allow(inconsistent_fields)]
#[derive(Clone, Copy, Debug, PartialEq, Eq, Structural)]
pub enum MidiEvent {
    NoteOn { channel: u8, note: u8, velocity: u8 },
    NoteOff { channel: u8, note: u8, velocity: u8 },
    ControlChange { channel: u8, controller: u8, value: u8 },
    /// The bend around zero.
    PitchBend { channel: u8, value: i16 },
}

impl MidiEvent {
    pub open spec fn control(self) -> MidiId {
        match self {
            MidiEvent::NoteOn { channel, note, .. } => MidiId {
                kind: MidiIdKind::Note,
                channel,
                number: note,
            },
            MidiEvent::NoteOff { channel, note, .. } => MidiId {
                kind: MidiIdKind::Note,
                channel,
                number: note,
            },
            MidiEvent::ControlChange { channel, controller, .. } => MidiId {
                kind: MidiIdKind::Cc,
                channel,
                number: controller,
            },
            MidiEvent::PitchBend { channel, .. } => MidiId {
                kind: MidiIdKind::Bend,
                channel,
                number: 0,
            },
        }
    }

    /// German word for the kind of message.
    pub open spec fn word(self) -> Seq<char> {
        match self {
            MidiEvent::NoteOn { .. } => "Note an"@,
            MidiEvent::NoteOff { .. } => "Note aus"@,
            MidiEvent::ControlChange { .. } => "Regler"@,
            MidiEvent::PitchBend { .. } => "Pitchbend"@,
        }
    }

    /// Velocity, controller value, or the bend around zero.
    pub open spec fn amount(self) -> int {
        match self {
            MidiEvent::NoteOn { velocity, .. } => velocity as int,
            MidiEvent::NoteOff { velocity, .. } => velocity as int,
            MidiEvent::ControlChange { value, .. } => value as int,
            MidiEvent::PitchBend { value, .. } => value as int,
        }
    }

    /// Whether this belongs to the steady stream a knob produces.
    pub open spec fn streams(self) -> bool {
        self is ControlChange || self is PitchBend
    }

    /// The control this came from.
    pub fn id(&self) -> (r: MidiId)
        ensures
            r == self.control(),
    {
        match *self {
            MidiEvent::NoteOn { channel, note, .. } => MidiId::note(channel, note),
            MidiEvent::NoteOff { channel, note, .. } => MidiId::note(channel, note),
            MidiEvent::ControlChange { channel, controller, .. } => MidiId::cc(channel, controller),
            MidiEvent::PitchBend { channel, .. } => MidiId::bend(channel),
        }
    }

    pub fn what(&self) -> (r: &'static str)
        ensures
            r@ == self.word(),
    {
        match *self {
            MidiEvent::NoteOn { .. } => "Note an",
            MidiEvent::NoteOff { .. } => "Note aus",
            MidiEvent::ControlChange { .. } => "Regler",
            MidiEvent::PitchBend { .. } => "Pitchbend",
        }
    }

    pub fn value(&self) -> (r: i32)
        ensures
            r == self.amount(),
    {
        match *self {
            MidiEvent::NoteOn { velocity, .. } => velocity as i32,
            MidiEvent::NoteOff { velocity, .. } => velocity as i32,
            MidiEvent::ControlChange { value, .. } => value as i32,
            MidiEvent::PitchBend { value, .. } => value as i32,
        }
    }

    pub fn is_continuous(&self) -> (r: bool)
        ensures
            r == self.streams(),
    {
        matches!(*self, MidiEvent::ControlChange { .. } | MidiEvent::PitchBend { .. })
    }
}

// ---------------------------------------------------------------------------------------------
// What a control can be bound to
// ---------------------------------------------------------------------------------------------

/// A track as a binding names it: by its place, or by what the user calls it.
#[derive(Debug)]
pub enum TrackRef {
    Index(usize),
    Name(String),
}

/// One effect knob.
#[derive(Clone, Copy, Debug, PartialEq, Eq, Structural)]
pub enum FxKnob {
    HighPassHz,
    BandHz(usize),
    BandQ(usize),
    BandGainDb(usize),
    CompThresholdDb,
    CompRatio,
    CompAttackMs,
    CompReleaseMs,
    CompKneeDb,
    CompMakeupDb,
    DelayFeedback,
    DelayMix,
    ReverbSize,
    ReverbDamping,
    ReverbMix,
}

/// Everything a control can be bound to.
#[derive(Debug)]
pub enum Target {
    ScoreStart,
    ScoreNext,
    ScoreStopAll,
    ScoreGoto(usize),
    Click,
    ClearAll,
    Tempo,
    Quantize(Quantize),
    Record(TrackRef),
    Overdub(TrackRef),
    Play(TrackRef),
    StopTrack(TrackRef),
    ClearTrack(TrackRef),
    Monitor(TrackRef),
    Pan(TrackRef),
    Send(TrackRef, TrackSource, Bus),
    BusGain(Bus),
    LatencyTrim(TrackRef),
    LayerMute(TrackRef, usize),
    LayerRemove(TrackRef, usize),
    LayerGain(TrackRef, usize),
    FxBypass(TrackRef),
    FxEnabled(TrackRef, FxSlot),
    FxPreset(TrackRef, FxPreset),
    FxKnob(TrackRef, FxKnob),
}

impl Target {
    pub open spec fn shifts_takes(self) -> bool {
        self is Record || self is Overdub || self is Play || self is StopTrack || self is ClearTrack
            || self is ClearAll || self is Tempo || self is Quantize
    }

    /// Whether this moves the transport of a track, which is the score's business while one plays.
    pub fn moves_transport(&self) -> (r: bool)
        ensures
            r == self.shifts_takes(),
    {
        matches!(
            self,
            Target::Record(_) | Target::Overdub(_) | Target::Play(_) | Target::StopTrack(_)
            | Target::ClearTrack(_) | Target::ClearAll | Target::Tempo | Target::Quantize(_)
        )
    }
}

/// What a binding asked for, with its value.
#[derive(Clone, Copy, Debug, PartialEq, Eq, Structural)]
pub enum MidiAction {
    ScoreStart,
    ScoreNext,
    ScoreStopAll,
    ScoreGoto(usize),
    Click(bool),
    ClearAll,
    Tempo(Bpm),
    SetQuantize(Quantize),
    Record { track: usize },
    Overdub { track: usize },
    Play { track: usize },
    StopTrack { track: usize },
    ClearTrack { track: usize },
    Monitor { track: usize, on: bool },
    Pan { track: usize, pan: Single },
    Send { track: usize, source: TrackSource, send: BusSend },
    BusGain { bus: Bus, gain: Single },
    LatencyTrim { track: usize, trim: i32 },
    LayerMute { track: usize, layer: usize, muted: bool },
    LayerRemove { track: usize, layer: usize },
    LayerGain { track: usize, layer: usize, gain: Single },
    FxBypass { track: usize, on: bool },
    FxEnable { track: usize, slot: FxSlot, on: bool },
    FxPreset { track: usize, preset: FxPreset },
    FxParam { track: usize, param: FxParam },
}

impl MidiAction {
    pub open spec fn shifts_takes(self) -> bool {
        self is Record || self is Overdub || self is Play || self is StopTrack || self is ClearTrack
            || self is ClearAll || self is Tempo || self is SetQuantize
    }

    /// Whether this moves the transport of a track, which is the score's business while one plays.
    pub fn moves_transport(&self) -> (r: bool)
        ensures
            r == self.shifts_takes(),
    {
        matches!(
            *self,
            MidiAction::Record { .. } | MidiAction::Overdub { .. } | MidiAction::Play { .. }
            | MidiAction::StopTrack { .. } | MidiAction::ClearTrack { .. } | MidiAction::ClearAll
            | MidiAction::Tempo(_) | MidiAction::SetQuantize(_)
        )
    }
}

// ---------------------------------------------------------------------------------------------
// What the window gets
// ---------------------------------------------------------------------------------------------

/// What one incoming event did.
#[derive(Clone, Copy, Debug, PartialEq, Eq, Structural)]
pub enum MidiOutcome {
    /// Nothing is bound to this control.
    Unbound,
    /// Bound, and correctly did nothing: the note off of a trigger, a knob that has not caught its
    /// parameter yet.
    Absorbed,
    /// Bound and carried out.
    Action,
    /// Bound, but not allowed right now: the score owns the transport, or the track is not there.
    Refused,
    /// The learn mode was waiting and this control just became the pending target.
    Learned,
}

/// One incoming event as the monitor prints it: what came in, and what the mapping made of it.
#[derive(Debug)]
pub struct MidiEventReport {
    /// Counts up for the life of the app, so a list can be keyed by it.
    pub seq: u64,
    /// `ch1.note36`: the string a profile file is keyed by.
    pub id: String,
    /// `Pad 36`, `CC 3`: the badge on a bound control.
    pub short: String,
    pub channel: u8,
    /// German word for the kind.
    pub what: String,
    /// Note or controller number. Absent for a pitch bend, which has none.
    pub number: Option<u8>,
    /// Velocity, controller value, or the bend around zero.
    pub value: i32,
    /// The address this control is bound to, if any.
    pub target: Option<String>,
    /// Its German name.
    pub target_label: Option<String>,
    pub outcome: MidiOutcome,
    /// The German sentence belonging to the outcome, where there is one.
    pub note: Option<String>,
    /// True for the steady stream a knob produces.
    pub continuous: bool,
}

/// A report, as mathematics.
#[verifier::ext_equal]
pub struct ReportModel {
    pub seq: u64,
    pub id: Seq<char>,
    pub short: Seq<char>,
    pub channel: u8,
    pub what: Seq<char>,
    pub number: Option<u8>,
    pub value: i32,
    pub target: Option<Seq<char>>,
    pub target_label: Option<Seq<char>>,
    pub outcome: MidiOutcome,
    pub note: Option<Seq<char>>,
    pub continuous: bool,
}

pub open spec fn text_model(text: Option<String>) -> Option<Seq<char>> {
    match text {
        Some(text) => Some(text@),
        None => None,
    }
}

impl View for MidiEventReport {
    type V = ReportModel;

    open spec fn view(&self) -> ReportModel {
        ReportModel {
            seq: self.seq,
            id: self.id@,
            short: self.short@,
            channel: self.channel,
            what: self.what@,
            number: self.number,
            value: self.value,
            target: text_model(self.target),
            target_label: text_model(self.target_label),
            outcome: self.outcome,
            note: text_model(self.note),
            continuous: self.continuous,
        }
    }
}

/// One MIDI input port as the system lists it, with the profile that would be loaded for it.
#[derive(Debug)]
pub struct MidiPortView {
    pub index: usize,
    pub name: String,
    /// The device of the profile that matches this port, or None when there is none yet.
    pub profile: Option<String>,
    pub bindings: usize,
}

/// One entry of the profile overview.
#[derive(Debug)]
pub struct MidiBindingView {
    pub id: String,
    pub short: String,
    pub channel: u8,
    /// `note`, `cc` or `bend`.
    pub kind: String,
    pub number: u8,
    pub address: String,
    /// German name of the target.
    pub label: String,
    /// The same plus the button behaviour or the range.
    pub describe: String,
    /// True when this binding comes from the loaded score rather than from the controller profile.
    pub from_score: bool,
}

/// Everything about the MIDI side that is not a single event: the connection, the mapping and the
/// learn mode.
#[derive(Debug)]
pub struct MidiView {
    pub connected: bool,
    /// The port as the system names it.
    pub port: Option<String>,
    /// The device of the profile in use.
    pub device: Option<String>,
    /// Where the profile is (or would be) saved.
    pub path: Option<String>,
    /// True when something was learned or unbound and not yet written to the file.
    pub dirty: bool,
    /// The address the learn mode is waiting for.
    pub learning: Option<String>,
    /// Its German name.
    pub learning_label: Option<String>,
    pub bindings: Vec<MidiBindingView>,
    /// One German line per control the score took over from the profile.
    pub notes: Vec<String>,
    /// The newest German sentence about what happened here.
    pub message: Option<String>,
    /// Events lost between the driver callback and the host thread.
    pub dropped: u64,
}

/// What travels to the window.
#[derive(Debug)]
pub struct MidiFeed {
    pub events: Vec<MidiEventReport>,
    /// Sent along whenever the connection, the mapping or the learn mode changed.
    pub view: Option<MidiView>,
}

/// Answer of "save the profile".
#[derive(Debug)]
pub struct MidiSaved {
    pub path: String,
    /// German sentence naming the file, ready to show.
    pub message: String,
    pub view: MidiView,
}

// ---------------------------------------------------------------------------------------------
// Laws
// ---------------------------------------------------------------------------------------------

proof fn lemma_dot_stands_last(front: Seq<char>, back: Seq<char>)
    requires
        !back.contains('.'),
    ensures
        last_place(front + seq!['.'] + back, '.') == Some(front.len() as int),
    decreases back.len(),
{
    let all = front + seq!['.'] + back;
    if back.len() == 0 {
        assert(all.last() == '.');
    } else {
        assert(back[back.len() - 1] != '.');
        assert(all.last() == back.last());
        assert(all.drop_last() =~= front + seq!['.'] + back.drop_last());
        assert forall|i: int| 0 <= i < back.len() - 1 implies back.drop_last()[i] != '.' by {
            assert(back[i] != '.');
        }
        lemma_dot_stands_last(front, back.drop_last());
    }
}

proof fn lemma_number_has_no_dot(n: nat)
    ensures
        !decimal(n).contains('.'),
{
    lemma_decimal_digits(n);
    assert forall|i: int| 0 <= i < decimal(n).len() implies decimal(n)[i] != '.' by {
        assert(is_digit(decimal(n)[i]));
    }
}

/// The key of a control reads back as the control.
pub proof fn a_key_reads_back(id: MidiId)
    requires
        id.possible(),
    ensures
        id_of(id.key()) == Some(id),
{
    reveal_strlit("ch");
    reveal_strlit(".note");
    reveal_strlit(".cc");
    reveal_strlit(".bend");
    reveal_strlit("note");
    reveal_strlit("cc");
    reveal_strlit("bend");
    let channel = decimal(id.channel as nat);
    let number = decimal(id.number as nat);
    let front = "ch"@ + channel;
    let back = match id.kind {
        MidiIdKind::Note => "note"@ + number,
        MidiIdKind::Cc => "cc"@ + number,
        MidiIdKind::Bend => "bend"@,
    };
    lemma_number_has_no_dot(id.number as nat);
    assert(!back.contains('.')) by {
        assert forall|i: int| 0 <= i < back.len() implies back[i] != '.' by {
            match id.kind {
                MidiIdKind::Note => {
                    if i >= 4 {
                        assert(back[i] == number[i - 4]);
                    }
                },
                MidiIdKind::Cc => {
                    if i >= 2 {
                        assert(back[i] == number[i - 2]);
                    }
                },
                MidiIdKind::Bend => {},
            }
        }
    }
    lemma_dot_stands_last(front, back);
    assert(id.key() =~= front + seq!['.'] + back);
    let at = front.len() as int;
    let key = id.key();
    assert(key.subrange(0, at) =~= front);
    assert(key.subrange(at + 1, key.len() as int) =~= back);
    assert(front.subrange(0, 2) =~= "ch"@);
    assert(front.subrange(2, front.len() as int) =~= channel);
    decimal_reads_back(id.channel as nat, 16);
    decimal_reads_back(id.number as nat, 127);
    match id.kind {
        MidiIdKind::Note => {
            assert(back[0] != "bend"@[0]);
            assert(back.subrange(0, 4) =~= "note"@);
            assert(back.subrange(4, back.len() as int) =~= number);
        },
        MidiIdKind::Cc => {
            assert(back[0] != "bend"@[0]);
            if back.len() >= 4 {
                assert(back.subrange(0, 4)[0] != "note"@[0]);
            }
            assert(back.subrange(0, 2) =~= "cc"@);
            assert(back.subrange(2, back.len() as int) =~= number);
        },
        MidiIdKind::Bend => {},
    }
}

/// A pad is one control whether it is pressed or released; a knob, a bend and another channel are
/// others.
pub proof fn a_pad_is_one_control(channel: u8, number: u8, velocity: u8, other: u8, bend: i16)
    ensures
        ({
            let on = MidiEvent::NoteOn { channel, note: number, velocity };
            let off = MidiEvent::NoteOff { channel, note: number, velocity: other };
            let knob = MidiEvent::ControlChange { channel, controller: number, value: velocity };
            let wheel = MidiEvent::PitchBend { channel, value: bend };
            &&& on.control() == off.control()
            &&& on.control() != knob.control()
            &&& on.control() != wheel.control()
            &&& knob.control() != wheel.control()
            &&& on.control().channel == channel && on.control().number == number
            &&& knob.control().channel == channel && knob.control().number == number
            &&& wheel.control().channel == channel && wheel.control().number == 0
            &&& on.amount() == velocity && off.amount() == other && knob.amount() == velocity
                && wheel.amount() == bend
            &&& !on.streams() && !off.streams() && knob.streams() && wheel.streams()
        }),
{
}

/// Whatever a key of a profile names is a control a controller can have.
pub proof fn a_key_names_a_possible_control(text: Seq<char>)
    ensures
        id_of(text) matches Some(id) ==> id.possible(),
{
}

/// Two controls have two keys.
pub proof fn keys_tell_controls_apart(a: MidiId, b: MidiId)
    requires
        a.possible(),
        b.possible(),
        a.key() == b.key(),
    ensures
        a == b,
{
    a_key_reads_back(a);
    a_key_reads_back(b);
}

/// A binding moves the transport exactly where it records, lays a layer, plays, stops or clears, or
/// where it sets the tempo or the grid.
pub proof fn a_target_moves_the_transport_or_the_mix(target: Target)
    ensures
        target is Record || target is Overdub || target is Play || target is StopTrack
            || target is ClearTrack || target is ClearAll || target is Tempo || target is Quantize
            ==> target.shifts_takes(),
        target is ScoreStart || target is ScoreNext || target is ScoreStopAll || target is ScoreGoto
            || target is Click || target is Monitor || target is Pan || target is Send
            || target is BusGain || target is LatencyTrim || target is LayerMute
            || target is LayerRemove || target is LayerGain || target is FxBypass
            || target is FxEnabled || target is FxPreset || target is FxKnob
            ==> !target.shifts_takes(),
{
}

} // verus!
