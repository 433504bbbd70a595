//! The effect chain of one track as knobs and switches: high-pass, three-band EQ, compressor,
//! delay, reverb.
//!
//! What a chain sounds like is arithmetic on samples and lives with the audio code. What a chain
//! *is* - which effects are on, where every knob stands, which preset it still is, how long it has
//! been silent - is decided here. Every knob has a range and is moved into it before it is stored.
//!
//! The order of the effects is the order of the signal path, and the numbering the user sees is
//! this order plus one.
use vstd::prelude::*;
use vstd::string::*;
use crate::delay::{renoted, retuned, tap_for, DelayTap};
use crate::frame::Frame;
use crate::single::Single;
use crate::timeline::Bpm;
use crate::text::{ascii_lower, lower, same_text, to_lowercase, trim, trimmed};

verus! {

/// Number of switchable effects in a chain.
pub const FX_SLOTS: usize = 5;

/// Number of EQ bands.
pub const EQ_BANDS: usize = 3;

// ---------------------------------------------------------------------------------------------
// Names
// ---------------------------------------------------------------------------------------------

/// One switchable position in the chain.
#[derive(Clone, Copy, Debug, PartialEq, Eq, Structural)]
pub enum FxSlot {
    HighPass,
    Eq,
    Comp,
    Delay,
    Reverb,
}

pub open spec fn slot_name(slot: FxSlot) -> Seq<char> {
    match slot {
        FxSlot::HighPass => "high_pass"@,
        FxSlot::Eq => "eq"@,
        FxSlot::Comp => "comp"@,
        FxSlot::Delay => "delay"@,
        FxSlot::Reverb => "reverb"@,
    }
}

pub open spec fn slot_label(slot: FxSlot) -> Seq<char> {
    match slot {
        FxSlot::HighPass => "Hochpass"@,
        FxSlot::Eq => "EQ"@,
        FxSlot::Comp => "Kompressor"@,
        FxSlot::Delay => "Delay"@,
        FxSlot::Reverb => "Hall"@,
    }
}

pub open spec fn slot_letter(slot: FxSlot) -> char {
    match slot {
        FxSlot::HighPass => 'H',
        FxSlot::Eq => 'E',
        FxSlot::Comp => 'K',
        FxSlot::Delay => 'D',
        FxSlot::Reverb => 'R',
    }
}

/// The slots in the order of the signal path.
pub open spec fn slots() -> Seq<FxSlot> {
    seq![FxSlot::HighPass, FxSlot::Eq, FxSlot::Comp, FxSlot::Delay, FxSlot::Reverb]
}

/// The slot a name stands for.
pub open spec fn slot_of_name(text: Seq<char>) -> Option<FxSlot> {
    if text == slot_name(FxSlot::HighPass) {
        Some(FxSlot::HighPass)
    } else if text == slot_name(FxSlot::Eq) {
        Some(FxSlot::Eq)
    } else if text == slot_name(FxSlot::Comp) {
        Some(FxSlot::Comp)
    } else if text == slot_name(FxSlot::Delay) {
        Some(FxSlot::Delay)
    } else if text == slot_name(FxSlot::Reverb) {
        Some(FxSlot::Reverb)
    } else {
        None
    }
}

impl FxSlot {
    pub open spec fn place(self) -> int {
        match self {
            FxSlot::HighPass => 0,
            FxSlot::Eq => 1,
            FxSlot::Comp => 2,
            FxSlot::Delay => 3,
            FxSlot::Reverb => 4,
        }
    }

    pub fn index(self) -> (r: usize)
        ensures
            r == self.place(),
            r < FX_SLOTS,
    {
        match self {
            FxSlot::HighPass => 0,
            FxSlot::Eq => 1,
            FxSlot::Comp => 2,
            FxSlot::Delay => 3,
            FxSlot::Reverb => 4,
        }
    }

    pub fn all() -> (r: [FxSlot; 5])
        ensures
            r@ == slots(),
    {
        let r: [FxSlot; 5] = [
            FxSlot::HighPass,
            FxSlot::Eq,
            FxSlot::Comp,
            FxSlot::Delay,
            FxSlot::Reverb,
        ];
        assert(r@ =~= slots());
        r
    }

    /// German name, for the display.
    pub fn label(self) -> (r: &'static str)
        ensures
            r@ == slot_label(self),
    {
        match self {
            FxSlot::HighPass => "Hochpass",
            FxSlot::Eq => "EQ",
            FxSlot::Comp => "Kompressor",
            FxSlot::Delay => "Delay",
            FxSlot::Reverb => "Hall",
        }
    }

    /// Machine name, as a command and a MIDI address spell it.
    pub fn name(self) -> (r: &'static str)
        ensures
            r@ == slot_name(self),
    {
        match self {
            FxSlot::HighPass => "high_pass",
            FxSlot::Eq => "eq",
            FxSlot::Comp => "comp",
            FxSlot::Delay => "delay",
            FxSlot::Reverb => "reverb",
        }
    }

    pub fn parse(text: &str) -> (r: Option<Self>)
        ensures
            r == slot_of_name(text@),
    {
        if same_text(text, FxSlot::HighPass.name()) {
            Some(FxSlot::HighPass)
        } else if same_text(text, FxSlot::Eq.name()) {
            Some(FxSlot::Eq)
        } else if same_text(text, FxSlot::Comp.name()) {
            Some(FxSlot::Comp)
        } else if same_text(text, FxSlot::Delay.name()) {
            Some(FxSlot::Delay)
        } else if same_text(text, FxSlot::Reverb.name()) {
            Some(FxSlot::Reverb)
        } else {
            None
        }
    }

    /// One letter for the compact status line: `HEKDR`.
    pub fn letter(self) -> (r: char)
        ensures
            r == slot_letter(self),
    {
        match self {
            FxSlot::HighPass => 'H',
            FxSlot::Eq => 'E',
            FxSlot::Comp => 'K',
            FxSlot::Delay => 'D',
            FxSlot::Reverb => 'R',
        }
    }

    /// One-based number as typed in the CLI.
    pub fn from_number(n: usize) -> (r: Option<Self>)
        ensures
            r == (if 1 <= n <= FX_SLOTS {
                Some(slots()[n - 1])
            } else {
                None
            }),
    {
        match n {
            1 => Some(FxSlot::HighPass),
            2 => Some(FxSlot::Eq),
            3 => Some(FxSlot::Comp),
            4 => Some(FxSlot::Delay),
            5 => Some(FxSlot::Reverb),
            _ => None,
        }
    }
}

/// The ready-made chains. On stage nobody turns knobs - the musician picks a name.
#[derive(Clone, Copy, Debug, PartialEq, Eq, Structural)]
pub enum FxPreset {
    /// Everything off, chain bypassed. The state a track starts in.
    Dry,
    Voice,
    PiezoGuitar,
    /// Not loadable - reported when a parameter has been changed by hand since the last preset.
    Custom,
}

impl Default for FxPreset {
    fn default() -> (r: Self)
        ensures
            r == FxPreset::Dry,
    {
        FxPreset::Dry
    }
}

pub open spec fn preset_label(preset: FxPreset) -> Seq<char> {
    match preset {
        FxPreset::Dry => "trocken"@,
        FxPreset::Voice => "stimme"@,
        FxPreset::PiezoGuitar => "gitarre"@,
        FxPreset::Custom => "eigen"@,
    }
}

/// The preset a lower-case word names. "eigen" names none: it is a report, not a choice.
pub open spec fn preset_of_word(word: Seq<char>) -> Option<FxPreset> {
    if word == "trocken"@ || word == "dry"@ || word == "aus"@ {
        Some(FxPreset::Dry)
    } else if word == "stimme"@ || word == "voice"@ || word == "gesang"@ {
        Some(FxPreset::Voice)
    } else if word == "gitarre"@ || word == "piezo"@ || word == "guitar"@ {
        Some(FxPreset::PiezoGuitar)
    } else {
        None
    }
}

impl FxPreset {
    pub fn label(self) -> (r: &'static str)
        ensures
            r@ == preset_label(self),
    {
        match self {
            FxPreset::Dry => "trocken",
            FxPreset::Voice => "stimme",
            FxPreset::PiezoGuitar => "gitarre",
            FxPreset::Custom => "eigen",
        }
    }

    /// The three a user can ask for.
    pub fn loadable() -> (r: [FxPreset; 3])
        ensures
            r@ == seq![FxPreset::Dry, FxPreset::Voice, FxPreset::PiezoGuitar],
    {
        let r: [FxPreset; 3] = [FxPreset::Dry, FxPreset::Voice, FxPreset::PiezoGuitar];
        assert(r@ =~= seq![FxPreset::Dry, FxPreset::Voice, FxPreset::PiezoGuitar]);
        r
    }

    /// The preset a word names that is already in lower case and without white space around it.
    pub fn of_word(word: &str) -> (r: Option<Self>)
        ensures
            r == preset_of_word(word@),
    {
        if same_text(word, "trocken") || same_text(word, "dry") || same_text(word, "aus") {
            Some(FxPreset::Dry)
        } else if same_text(word, "stimme") || same_text(word, "voice") || same_text(
            word,
            "gesang",
        ) {
            Some(FxPreset::Voice)
        } else if same_text(word, "gitarre") || same_text(word, "piezo") || same_text(
            word,
            "guitar",
        ) {
            Some(FxPreset::PiezoGuitar)
        } else {
            None
        }
    }

    pub fn parse(text: &str) -> (r: Option<Self>)
        ensures
            r == preset_of_word(lower(trimmed(text@))),
    {
        let word: String = to_lowercase(trim(text));
        FxPreset::of_word(word.as_str())
    }

    /// Whether loading this preset also bypasses the whole chain. Only "trocken" does.
    pub fn bypasses(self) -> (r: bool)
        ensures
            r == (self == FxPreset::Dry),
    {
        matches!(self, FxPreset::Dry)
    }
}

/// What one EQ band does to the spectrum.
#[derive(Clone, Copy, Debug, PartialEq, Eq, Structural)]
pub enum BandKind {
    /// A bell around the centre frequency.
    Peak,
    /// Everything below the corner is lifted or lowered.
    LowShelf,
    /// Everything above the corner is lifted or lowered.
    HighShelf,
}

impl Default for BandKind {
    fn default() -> (r: Self)
        ensures
            r == BandKind::Peak,
    {
        BandKind::Peak
    }
}

impl BandKind {
    pub fn label(self) -> (r: &'static str)
        ensures
            r@ == (match self {
                BandKind::Peak => "Glocke"@,
                BandKind::LowShelf => "Tiefen-Kuhschwanz"@,
                BandKind::HighShelf => "Hoehen-Kuhschwanz"@,
            }),
    {
        match self {
            BandKind::Peak => "Glocke",
            BandKind::LowShelf => "Tiefen-Kuhschwanz",
            BandKind::HighShelf => "Hoehen-Kuhschwanz",
        }
    }
}

/// Note values the delay can be set to, as musicians name them.
#[derive(Clone, Copy, Debug, PartialEq, Eq, Structural)]
pub enum DelayNote {
    /// Straight quarter. The safe choice; it disappears into the beat.
    Quarter,
    /// Dotted eighth. The one that makes a strummed part sound like two guitars.
    DottedEighth,
    Eighth,
    /// Eighth triplet - a shuffle against a straight part.
    TripletEighth,
}

impl Default for DelayNote {
    fn default() -> (r: Self)
        ensures
            r == DelayNote::DottedEighth,
    {
        DelayNote::DottedEighth
    }
}

pub open spec fn note_label(note: DelayNote) -> Seq<char> {
    match note {
        DelayNote::Quarter => "1/4"@,
        DelayNote::DottedEighth => "1/8."@,
        DelayNote::Eighth => "1/8"@,
        DelayNote::TripletEighth => "1/8T"@,
    }
}

/// The note value a lower-case word names.
pub open spec fn note_of_word(word: Seq<char>) -> Option<DelayNote> {
    if word == "1/4"@ || word == "4"@ || word == "viertel"@ {
        Some(DelayNote::Quarter)
    } else if word == "1/8."@ || word == "8."@ || word == "punktiert"@ {
        Some(DelayNote::DottedEighth)
    } else if word == "1/8"@ || word == "8"@ || word == "achtel"@ {
        Some(DelayNote::Eighth)
    } else if word == "1/8t"@ || word == "8t"@ || word == "triole"@ {
        Some(DelayNote::TripletEighth)
    } else {
        None
    }
}

impl DelayNote {
    /// Length as a fraction of a quarter note: numerator and denominator.
    pub open spec fn share(self) -> (int, int) {
        match self {
            DelayNote::Quarter => (1, 1),
            DelayNote::DottedEighth => (3, 4),
            DelayNote::Eighth => (1, 2),
            DelayNote::TripletEighth => (1, 3),
        }
    }

    /// Length as a fraction of a quarter note: numerator and denominator.
    pub fn factor(self) -> (r: (u128, u128))
        ensures
            r.0 == self.share().0,
            r.1 == self.share().1,
    {
        match self {
            DelayNote::Quarter => (1, 1),
            DelayNote::DottedEighth => (3, 4),
            DelayNote::Eighth => (1, 2),
            DelayNote::TripletEighth => (1, 3),
        }
    }

    /// How it is written on paper, for the display.
    pub fn label(self) -> (r: &'static str)
        ensures
            r@ == note_label(self),
    {
        match self {
            DelayNote::Quarter => "1/4",
            DelayNote::DottedEighth => "1/8.",
            DelayNote::Eighth => "1/8",
            DelayNote::TripletEighth => "1/8T",
        }
    }

    /// The note value a word names that is already in lower case and without white space around it.
    pub fn of_word(word: &str) -> (r: Option<Self>)
        ensures
            r == note_of_word(word@),
    {
        if same_text(word, "1/4") || same_text(word, "4") || same_text(word, "viertel") {
            Some(DelayNote::Quarter)
        } else if same_text(word, "1/8.") || same_text(word, "8.") || same_text(
            word,
            "punktiert",
        ) {
            Some(DelayNote::DottedEighth)
        } else if same_text(word, "1/8") || same_text(word, "8") || same_text(word, "achtel") {
            Some(DelayNote::Eighth)
        } else if same_text(word, "1/8t") || same_text(word, "8t") || same_text(word, "triole") {
            Some(DelayNote::TripletEighth)
        } else {
            None
        }
    }

    /// Read what the command line accepts.
    pub fn parse(text: &str) -> (r: Option<Self>)
        ensures
            r == note_of_word(lower(trimmed(text@))),
    {
        let word: String = to_lowercase(trim(text));
        DelayNote::of_word(word.as_str())
    }

    pub fn all() -> (r: [DelayNote; 4])
        ensures
            r@ == seq![
                DelayNote::Quarter,
                DelayNote::DottedEighth,
                DelayNote::Eighth,
                DelayNote::TripletEighth,
            ],
    {
        let r: [DelayNote; 4] = [
            DelayNote::Quarter,
            DelayNote::DottedEighth,
            DelayNote::Eighth,
            DelayNote::TripletEighth,
        ];
        assert(r@ =~= seq![
            DelayNote::Quarter,
            DelayNote::DottedEighth,
            DelayNote::Eighth,
            DelayNote::TripletEighth,
        ]);
        r
    }
}

// ---------------------------------------------------------------------------------------------
// Settings
// ---------------------------------------------------------------------------------------------

/// One EQ band.
#[derive(Clone, Copy, Debug, PartialEq, Eq, Structural)]
pub struct BandSettings {
    pub kind: BandKind,
    pub hz: Single,
    pub q: Single,
    pub gain_db: Single,
}

/// Shorthand for a single-precision number.
pub open spec fn single(bits: u32) -> Single {
    Single { bits }
}

// The ends of the knob ranges, as bit patterns.
pub const ZERO: u32 = 0;

pub const ONE: u32 = 0x3f80_0000;

/// 0.1
pub const TENTH: u32 = 0x3dcc_cccd;

pub const TWELVE: u32 = 0x4140_0000;

pub const TWENTY: u32 = 0x41a0_0000;

pub const TWENTY_FOUR: u32 = 0x41c0_0000;

pub const MINUS_TWENTY_FOUR: u32 = 0xc1c0_0000;

pub const MINUS_SIXTY: u32 = 0xc270_0000;

pub const FIVE: u32 = 0x40a0_0000;

pub const TWO_HUNDRED: u32 = 0x4348_0000;

pub const THOUSAND: u32 = 0x447a_0000;

pub const TWO_THOUSAND: u32 = 0x44fa_0000;

pub const TWENTY_THOUSAND: u32 = 0x469c_4000;

/// 0.95
pub const FEEDBACK_MOST: u32 = 0x3f73_3333;

pub open spec fn in_hz_range(hz: Single) -> Single {
    hz.clamped(single(TWENTY), single(TWENTY_THOUSAND))
}

pub open spec fn in_q_range(q: Single) -> Single {
    q.clamped(single(TENTH), single(TWELVE))
}

pub open spec fn in_gain_range(db: Single) -> Single {
    db.clamped(single(MINUS_TWENTY_FOUR), single(TWENTY_FOUR))
}

pub open spec fn in_high_pass_range(hz: Single) -> Single {
    hz.clamped(single(TWENTY), single(THOUSAND))
}

pub open spec fn in_share_range(share: Single) -> Single {
    share.clamped(single(ZERO), single(ONE))
}

pub open spec fn in_feedback_range(feedback: Single) -> Single {
    feedback.clamped(single(ZERO), single(FEEDBACK_MOST))
}

impl Default for BandSettings {
    fn default() -> (r: Self)
        ensures
            r == default_band(),
    {
        BandSettings {
            kind: BandKind::Peak,
            hz: Single { bits: THOUSAND },
            q: Single { bits: ONE },
            gain_db: Single { bits: ZERO },
        }
    }
}

/// A bell at 1 kHz that does nothing.
pub open spec fn default_band() -> BandSettings {
    BandSettings {
        kind: BandKind::Peak,
        hz: single(THOUSAND),
        q: single(ONE),
        gain_db: single(ZERO),
    }
}

impl BandSettings {
    /// The band with every knob in its range.
    pub open spec fn ranged(self) -> BandSettings {
        BandSettings {
            kind: self.kind,
            hz: in_hz_range(self.hz),
            q: in_q_range(self.q),
            gain_db: in_gain_range(self.gain_db),
        }
    }

    pub fn clamped(self) -> (r: Self)
        ensures
            r == self.ranged(),
    {
        BandSettings {
            kind: self.kind,
            hz: self.hz.clamp(Single { bits: TWENTY }, Single { bits: TWENTY_THOUSAND }),
            q: self.q.clamp(Single { bits: TENTH }, Single { bits: TWELVE }),
            gain_db: self.gain_db.clamp(
                Single { bits: MINUS_TWENTY_FOUR },
                Single { bits: TWENTY_FOUR },
            ),
        }
    }

    /// A band that does nothing costs nothing: the chain skips it entirely.
    pub fn is_flat(&self) -> (r: bool)
        ensures
            r == self.gain_db.zero(),
    {
        self.gain_db.is_zero()
    }
}

/// The knobs of the compressor.
#[derive(Clone, Copy, Debug, PartialEq, Eq, Structural)]
pub struct CompSettings {
    pub threshold_db: Single,
    /// 1 means no compression; 3 means 3:1.
    pub ratio: Single,
    pub attack_ms: Single,
    pub release_ms: Single,
    /// Total width of the soft knee in dB, centred on the threshold. 0 is a hard knee.
    pub knee_db: Single,
    pub makeup_db: Single,
}

/// -18 dB, 3:1, 12 ms, 180 ms, 8 dB knee, no makeup.
pub open spec fn default_comp() -> CompSettings {
    CompSettings {
        threshold_db: single(0xc190_0000),
        ratio: single(0x4040_0000),
        attack_ms: single(0x4140_0000),
        release_ms: single(0x4334_0000),
        knee_db: single(0x4100_0000),
        makeup_db: single(ZERO),
    }
}

impl Default for CompSettings {
    fn default() -> (r: Self)
        ensures
            r == default_comp(),
    {
        CompSettings {
            threshold_db: Single { bits: 0xc190_0000 },
            ratio: Single { bits: 0x4040_0000 },
            attack_ms: Single { bits: 0x4140_0000 },
            release_ms: Single { bits: 0x4334_0000 },
            knee_db: Single { bits: 0x4100_0000 },
            makeup_db: Single { bits: ZERO },
        }
    }
}

impl CompSettings {
    /// The compressor with every knob in its range.
    pub open spec fn ranged(self) -> CompSettings {
        CompSettings {
            threshold_db: self.threshold_db.clamped(single(MINUS_SIXTY), single(ZERO)),
            ratio: self.ratio.clamped(single(ONE), single(TWENTY)),
            attack_ms: self.attack_ms.clamped(single(TENTH), single(TWO_HUNDRED)),
            release_ms: self.release_ms.clamped(single(FIVE), single(TWO_THOUSAND)),
            knee_db: self.knee_db.clamped(single(ZERO), single(TWENTY_FOUR)),
            makeup_db: in_gain_range(self.makeup_db),
        }
    }

    pub fn clamped(self) -> (r: Self)
        ensures
            r == self.ranged(),
    {
        CompSettings {
            threshold_db: self.threshold_db.clamp(
                Single { bits: MINUS_SIXTY },
                Single { bits: ZERO },
            ),
            ratio: self.ratio.clamp(Single { bits: ONE }, Single { bits: TWENTY }),
            attack_ms: self.attack_ms.clamp(Single { bits: TENTH }, Single { bits: TWO_HUNDRED }),
            release_ms: self.release_ms.clamp(
                Single { bits: FIVE },
                Single { bits: TWO_THOUSAND },
            ),
            knee_db: self.knee_db.clamp(Single { bits: ZERO }, Single { bits: TWENTY_FOUR }),
            makeup_db: self.makeup_db.clamp(
                Single { bits: MINUS_TWENTY_FOUR },
                Single { bits: TWENTY_FOUR },
            ),
        }
    }
}

/// Every knob of a chain, as plain data. This is what a preset *is*.
#[derive(Clone, Copy, Debug, PartialEq, Eq)]
pub struct ChainSettings {
    pub enabled: [bool; 5],
    pub high_pass_hz: Single,
    pub bands: [BandSettings; 3],
    pub comp: CompSettings,
    pub delay_note: DelayNote,
    pub delay_feedback: Single,
    pub delay_mix: Single,
    pub reverb_size: Single,
    pub reverb_damping: Single,
    pub reverb_mix: Single,
}

/// The settings of a chain, as mathematics: the switches and the bands as sequences.
#[verifier::ext_equal]
pub struct Knobs {
    pub enabled: Seq<bool>,
    pub high_pass_hz: Single,
    pub bands: Seq<BandSettings>,
    pub comp: CompSettings,
    pub delay_note: DelayNote,
    pub delay_feedback: Single,
    pub delay_mix: Single,
    pub reverb_size: Single,
    pub reverb_damping: Single,
    pub reverb_mix: Single,
}

impl View for ChainSettings {
    type V = Knobs;

    open spec fn view(&self) -> Knobs {
        Knobs {
            enabled: self.enabled@,
            high_pass_hz: self.high_pass_hz,
            bands: self.bands@,
            comp: self.comp,
            delay_note: self.delay_note,
            delay_feedback: self.delay_feedback,
            delay_mix: self.delay_mix,
            reverb_size: self.reverb_size,
            reverb_damping: self.reverb_damping,
            reverb_mix: self.reverb_mix,
        }
    }
}

impl Knobs {
    pub open spec fn shaped(self) -> bool {
        self.enabled.len() == FX_SLOTS && self.bands.len() == EQ_BANDS
    }

    /// The same knobs, each in its range.
    pub open spec fn ranged(self) -> Knobs {
        Knobs {
            high_pass_hz: in_high_pass_range(self.high_pass_hz),
            bands: self.bands.map_values(|band: BandSettings| band.ranged()),
            comp: self.comp.ranged(),
            delay_feedback: in_feedback_range(self.delay_feedback),
            delay_mix: in_share_range(self.delay_mix),
            reverb_size: in_share_range(self.reverb_size),
            reverb_damping: in_share_range(self.reverb_damping),
            reverb_mix: in_share_range(self.reverb_mix),
            ..self
        }
    }
}

/// A band with a kind and three knobs.
pub open spec fn band(kind: BandKind, hz: u32, q: u32, gain_db: u32) -> BandSettings {
    BandSettings { kind, hz: single(hz), q: single(q), gain_db: single(gain_db) }
}

/// The knobs a preset stands for.
pub open spec fn preset_knobs(preset: FxPreset) -> Knobs {
    match preset {
        // 80 Hz high-pass, three flat bands, everything off.
        FxPreset::Dry | FxPreset::Custom => Knobs {
            enabled: seq![false, false, false, false, false],
            high_pass_hz: single(0x42a0_0000),
            bands: seq![default_band(), default_band(), default_band()],
            comp: default_comp(),
            delay_note: DelayNote::DottedEighth,
            delay_feedback: single(0x3e99_999a),
            delay_mix: single(ZERO),
            reverb_size: single(0x3f19_999a),
            reverb_damping: single(0x3f00_0000),
            reverb_mix: single(ZERO),
        },
        // 80 Hz high-pass; 300 Hz -2 dB, 3 kHz +2.5 dB, 8 kHz shelf +2 dB; -18 dB 3:1 +6 dB;
        // a small hall at 18 % wet.
        FxPreset::Voice => Knobs {
            enabled: seq![true, true, true, false, true],
            high_pass_hz: single(0x42a0_0000),
            bands: seq![
                band(BandKind::Peak, 0x4396_0000, 0x3f80_0000, 0xc000_0000),
                band(BandKind::Peak, 0x453b_8000, 0x3f66_6666, 0x4020_0000),
                band(BandKind::HighShelf, 0x45fa_0000, 0x3f34_fdf4, 0x4000_0000),
            ],
            comp: CompSettings {
                threshold_db: single(0xc190_0000),
                ratio: single(0x4040_0000),
                attack_ms: single(0x4140_0000),
                release_ms: single(0x4334_0000),
                knee_db: single(0x4100_0000),
                makeup_db: single(0x40c0_0000),
            },
            delay_note: DelayNote::DottedEighth,
            delay_feedback: single(0x3e99_999a),
            delay_mix: single(0x3e61_47ae),
            reverb_size: single(0x3f1e_b852),
            reverb_damping: single(0x3ee6_6666),
            reverb_mix: single(0x3e38_51ec),
        },
        // 100 Hz high-pass; 180 Hz -3 dB, 3 kHz -4 dB, 6 kHz shelf +1.5 dB; -14 dB 2.5:1 +3 dB;
        // a smaller room at 10 % wet.
        FxPreset::PiezoGuitar => Knobs {
            enabled: seq![true, true, true, false, true],
            high_pass_hz: single(0x42c8_0000),
            bands: seq![
                band(BandKind::Peak, 0x4334_0000, 0x3f99_999a, 0xc040_0000),
                band(BandKind::Peak, 0x453b_8000, 0x3fb3_3333, 0xc080_0000),
                band(BandKind::HighShelf, 0x45bb_8000, 0x3f34_fdf4, 0x3fc0_0000),
            ],
            comp: CompSettings {
                threshold_db: single(0xc160_0000),
                ratio: single(0x4020_0000),
                attack_ms: single(0x41c8_0000),
                release_ms: single(0x437a_0000),
                knee_db: single(0x40c0_0000),
                makeup_db: single(0x4040_0000),
            },
            delay_note: DelayNote::DottedEighth,
            delay_feedback: single(0x3e80_0000),
            delay_mix: single(0x3e19_999a),
            reverb_size: single(0x3f00_0000),
            reverb_damping: single(0x3f19_999a),
            reverb_mix: single(0x3dcc_cccd),
        },
    }
}

impl Default for ChainSettings {
    fn default() -> (r: Self)
        ensures
            r@ == preset_knobs(FxPreset::Dry),
    {
        let band: BandSettings = BandSettings::default();
        let r = ChainSettings {
            enabled: [false, false, false, false, false],
            high_pass_hz: Single { bits: 0x42a0_0000 },
            bands: [band, band, band],
            comp: CompSettings::default(),
            delay_note: DelayNote::DottedEighth,
            delay_feedback: Single { bits: 0x3e99_999a },
            delay_mix: Single { bits: ZERO },
            reverb_size: Single { bits: 0x3f19_999a },
            reverb_damping: Single { bits: 0x3f00_0000 },
            reverb_mix: Single { bits: ZERO },
        };
        assert(r@ =~= preset_knobs(FxPreset::Dry));
        r
    }
}

fn make_band(kind: BandKind, hz: u32, q: u32, gain_db: u32) -> (r: BandSettings)
    ensures
        r == band(kind, hz, q, gain_db),
{
    BandSettings {
        kind,
        hz: Single { bits: hz },
        q: Single { bits: q },
        gain_db: Single { bits: gain_db },
    }
}

impl FxPreset {
    /// The values behind a name.
    pub fn settings(self) -> (r: ChainSettings)
        ensures
            r@ == preset_knobs(self),
    {
        match self {
            FxPreset::Dry | FxPreset::Custom => ChainSettings::default(),
            FxPreset::Voice => {
                let r = ChainSettings {
                    enabled: [true, true, true, false, true],
                    // Under the lowest fundamental a sung voice produces, so nothing of the voice
                    // itself is touched.
                    high_pass_hz: Single { bits: 0x42a0_0000 },
                    bands: [
                        // The boxy region of a close-miked voice, a gentle cut.
                        make_band(BandKind::Peak, 0x4396_0000, 0x3f80_0000, 0xc000_0000),
                        // Consonants: what makes the words intelligible over a strummed guitar.
                        make_band(BandKind::Peak, 0x453b_8000, 0x3f66_6666, 0x4020_0000),
                        // Air: a shelf, because it is the whole top end.
                        make_band(BandKind::HighShelf, 0x45fa_0000, 0x3f34_fdf4, 0x4000_0000),
                    ],
                    comp: CompSettings {
                        threshold_db: Single { bits: 0xc190_0000 },
                        ratio: Single { bits: 0x4040_0000 },
                        attack_ms: Single { bits: 0x4140_0000 },
                        release_ms: Single { bits: 0x4334_0000 },
                        knee_db: Single { bits: 0x4100_0000 },
                        makeup_db: Single { bits: 0x40c0_0000 },
                    },
                    delay_note: DelayNote::DottedEighth,
                    delay_feedback: Single { bits: 0x3e99_999a },
                    delay_mix: Single { bits: 0x3e61_47ae },
                    reverb_size: Single { bits: 0x3f1e_b852 },
                    reverb_damping: Single { bits: 0x3ee6_6666 },
                    reverb_mix: Single { bits: 0x3e38_51ec },
                };
                assert(r@ =~= preset_knobs(FxPreset::Voice));
                r
            },
            FxPreset::PiezoGuitar => {
                let r = ChainSettings {
                    enabled: [true, true, true, false, true],
                    // Higher than the voice on purpose: down there a piezo has boom and rumble.
                    high_pass_hz: Single { bits: 0x42c8_0000 },
                    bands: [
                        // The main body resonance seen through a piezo.
                        make_band(BandKind::Peak, 0x4334_0000, 0x3f99_999a, 0xc040_0000),
                        // The quack between 2 and 4 kHz.
                        make_band(BandKind::Peak, 0x453b_8000, 0x3fb3_3333, 0xc080_0000),
                        // The sparkle the cut took with it.
                        make_band(BandKind::HighShelf, 0x45bb_8000, 0x3f34_fdf4, 0x3fc0_0000),
                    ],
                    comp: CompSettings {
                        threshold_db: Single { bits: 0xc160_0000 },
                        ratio: Single { bits: 0x4020_0000 },
                        attack_ms: Single { bits: 0x41c8_0000 },
                        release_ms: Single { bits: 0x437a_0000 },
                        knee_db: Single { bits: 0x40c0_0000 },
                        makeup_db: Single { bits: 0x4040_0000 },
                    },
                    delay_note: DelayNote::DottedEighth,
                    delay_feedback: Single { bits: 0x3e80_0000 },
                    delay_mix: Single { bits: 0x3e19_999a },
                    reverb_size: Single { bits: 0x3f00_0000 },
                    reverb_damping: Single { bits: 0x3f19_999a },
                    reverb_mix: Single { bits: 0x3dcc_cccd },
                };
                assert(r@ =~= preset_knobs(FxPreset::PiezoGuitar));
                r
            },
        }
    }
}

// ---------------------------------------------------------------------------------------------
// Parameters as commands
// ---------------------------------------------------------------------------------------------

/// One parameter change. Fixed size, so it travels in the command queue.
#[derive(Clone, Copy, Debug, PartialEq, Eq, Structural)]
pub enum FxParam {
    HighPassHz(Single),
    BandKind { band: usize, kind: BandKind },
    BandHz { band: usize, hz: Single },
    BandQ { band: usize, q: Single },
    BandGainDb { band: usize, db: Single },
    CompThresholdDb(Single),
    CompRatio(Single),
    CompAttackMs(Single),
    CompReleaseMs(Single),
    CompKneeDb(Single),
    CompMakeupDb(Single),
    DelayNote(DelayNote),
    DelayFeedback(Single),
    DelayMix(Single),
    ReverbSize(Single),
    ReverbDamping(Single),
    ReverbMix(Single),
}

/// One band changed, if it exists. A band index that does not exist is ignored.
pub open spec fn with_band(knobs: Knobs, at: int, changed: BandSettings) -> Knobs {
    if 0 <= at < knobs.bands.len() {
        Knobs { bands: knobs.bands.update(at, changed), ..knobs }
    } else {
        knobs
    }
}

/// The compressor changed. Its other knobs are moved into their ranges with it.
pub open spec fn with_comp(knobs: Knobs, comp: CompSettings) -> Knobs {
    Knobs { comp: comp.ranged(), ..knobs }
}

/// The knobs after one parameter change.
pub open spec fn turned(knobs: Knobs, param: FxParam) -> Knobs {
    match param {
        FxParam::HighPassHz(hz) => Knobs { high_pass_hz: in_high_pass_range(hz), ..knobs },
        FxParam::BandKind { band, kind } => with_band(
            knobs,
            band as int,
            BandSettings { kind, ..knobs.bands[band as int] },
        ),
        FxParam::BandHz { band, hz } => with_band(
            knobs,
            band as int,
            BandSettings { hz: in_hz_range(hz), ..knobs.bands[band as int] },
        ),
        FxParam::BandQ { band, q } => with_band(
            knobs,
            band as int,
            BandSettings { q: in_q_range(q), ..knobs.bands[band as int] },
        ),
        FxParam::BandGainDb { band, db } => with_band(
            knobs,
            band as int,
            BandSettings { gain_db: in_gain_range(db), ..knobs.bands[band as int] },
        ),
        FxParam::CompThresholdDb(v) => with_comp(
            knobs,
            CompSettings { threshold_db: v, ..knobs.comp },
        ),
        FxParam::CompRatio(v) => with_comp(knobs, CompSettings { ratio: v, ..knobs.comp }),
        FxParam::CompAttackMs(v) => with_comp(knobs, CompSettings { attack_ms: v, ..knobs.comp }),
        FxParam::CompReleaseMs(v) => with_comp(knobs, CompSettings { release_ms: v, ..knobs.comp }),
        FxParam::CompKneeDb(v) => with_comp(knobs, CompSettings { knee_db: v, ..knobs.comp }),
        FxParam::CompMakeupDb(v) => with_comp(knobs, CompSettings { makeup_db: v, ..knobs.comp }),
        FxParam::DelayNote(note) => Knobs { delay_note: note, ..knobs },
        FxParam::DelayFeedback(v) => Knobs { delay_feedback: in_feedback_range(v), ..knobs },
        FxParam::DelayMix(v) => Knobs { delay_mix: in_share_range(v), ..knobs },
        FxParam::ReverbSize(v) => Knobs { reverb_size: in_share_range(v), ..knobs },
        FxParam::ReverbDamping(v) => Knobs { reverb_damping: in_share_range(v), ..knobs },
        FxParam::ReverbMix(v) => Knobs { reverb_mix: in_share_range(v), ..knobs },
    }
}

/// What the chain of one track currently is, for the status snapshot.
#[derive(Clone, Copy, Debug, PartialEq, Eq)]
pub struct FxStatus {
    pub bypass: bool,
    pub preset: FxPreset,
    pub settings: ChainSettings,
    /// Delay time actually sounding, in samples - the tempo-synchronous number.
    pub delay_samples: u64,
    /// Deepest gain reduction since the last snapshot, in dB and never positive.
    pub reduction_db: Single,
}

impl Default for FxStatus {
    fn default() -> (r: Self)
        ensures
            r.bypass,
            r.preset == FxPreset::Dry,
            r.settings@ == preset_knobs(FxPreset::Dry),
            r.delay_samples == 0,
            r.reduction_db == single(ZERO),
    {
        FxStatus {
            bypass: true,
            preset: FxPreset::Dry,
            settings: ChainSettings::default(),
            delay_samples: 0,
            reduction_db: Single { bits: ZERO },
        }
    }
}

/// The letter of every effect that is on, a dash for one that is off.
pub open spec fn status_letters(enabled: Seq<bool>) -> Seq<char> {
    Seq::new(
        FX_SLOTS as nat,
        |i: int|
            if enabled[i] {
                slot_letter(slots()[i])
            } else {
                '-'
            },
    )
}

impl FxStatus {
    /// `HEK-R` style summary. Five characters, always, so the terminal display does not jump.
    pub fn letters(&self) -> (r: String)
        ensures
            r@ == status_letters(self.settings.enabled@),
    {
        let all: [FxSlot; 5] = FxSlot::all();
        let mut out = String::new();
        let mut i: usize = 0;
        while i < 5
            invariant
                i <= 5,
                all@ == slots(),
                out@ == status_letters(self.settings.enabled@).subrange(0, i as int),
            decreases 5 - i,
        {
            let c: char = if self.settings.enabled[i] {
                all[i].letter()
            } else {
                '-'
            };
            out.push(c);
            i = i + 1;
        }
        out
    }

    /// True when the chain is doing something audible.
    pub fn active(&self) -> (r: bool)
        ensures
            r == (!self.bypass && self.settings.enabled@.contains(true)),
    {
        let on: &[bool; 5] = &self.settings.enabled;
        let any: bool = on[0] || on[1] || on[2] || on[3] || on[4];
        proof {
            if self.settings.enabled@.contains(true) {
                let i = choose|i: int|
                    0 <= i < self.settings.enabled@.len() && self.settings.enabled@[i];
                assert(i == 0 || i == 1 || i == 2 || i == 3 || i == 4);
            }
        }
        !self.bypass && any
    }
}

// ---------------------------------------------------------------------------------------------
// The chain
// ---------------------------------------------------------------------------------------------

/// What a chain does with one frame.
#[derive(Clone, Copy, Debug, PartialEq, Eq, Structural)]
pub enum Gate {
    /// Bypassed and the crossfade has arrived: the frame passes bit for bit.
    Through,
    /// Silent for longer than the longest tail: nothing can come out.
    Idle,
    /// The effects run.
    Run,
}

/// What a chain does with a frame, where it has been silent for `silence` frames.
pub open spec fn gate_for(bypassed: bool, silent: bool, silence: int, tail: int) -> Gate {
    if bypassed {
        Gate::Through
    } else if silent && silence >= tail {
        Gate::Idle
    } else {
        Gate::Run
    }
}

/// How long a chain has then been silent.
pub open spec fn silence_after(bypassed: bool, silent: bool, silence: int, tail: int) -> int {
    match gate_for(bypassed, silent, silence, tail) {
        Gate::Through => u32::MAX as int,
        Gate::Idle => silence,
        Gate::Run => if silent {
            silence + 1
        } else {
            0
        },
    }
}

/// The switches, knobs and the silence count of one chain.
#[derive(Clone, Copy, Debug)]
pub struct Chain {
    sample_rate: u32,
    bypass: bool,
    set: ChainSettings,
    preset: FxPreset,
    delay: DelayTap,
    /// Consecutive frames of digital silence at the input.
    silence_run: u32,
    /// After this many silent frames nothing can come out any more and the chain goes idle.
    tail_samples: u32,
}

impl Chain {
    pub closed spec fn rate(self) -> int {
        self.sample_rate as int
    }

    pub closed spec fn knobs(self) -> Knobs {
        self.set@
    }

    pub closed spec fn spec_preset(self) -> FxPreset {
        self.preset
    }

    pub closed spec fn spec_bypass(self) -> bool {
        self.bypass
    }

    pub closed spec fn tap(self) -> DelayTap {
        self.delay
    }

    pub closed spec fn silence(self) -> int {
        self.silence_run as int
    }

    pub closed spec fn tail(self) -> int {
        self.tail_samples as int
    }

    /// Every knob stands inside its range, and the delay follows the tempo at the note the settings
    /// name.
    pub open spec fn wf(self) -> bool {
        &&& self.knobs().shaped()
        &&& self.knobs() == self.knobs().ranged()
        &&& self.tap().spec_note() == self.knobs().delay_note
        &&& self.tap().spec_rate() == self.rate()
        &&& self.tap().spec_tempo() matches Some(bpm) ==> self.tap().target() == tap_for(
            self.rate(),
            bpm,
            self.knobs().delay_note,
        )
    }

    /// Everything but the knobs, the switches and the preset is as it was.
    pub open spec fn same_motion(self, before: Chain) -> bool {
        self.rate() == before.rate() && self.silence() == before.silence() && self.tail()
            == before.tail()
    }

    /// A chain nobody has touched: bypassed, everything off.
    pub fn new(sample_rate: u32) -> (r: Self)
        ensures
            r.wf(),
            r.rate() == sample_rate,
            r.knobs() == preset_knobs(FxPreset::Dry),
            r.spec_preset() == FxPreset::Dry,
            r.spec_bypass(),
            r.silence() == u32::MAX,
            r.tail() == sample_rate,
            r.tap().spec_tempo() is None,
            r.tap().spec_rate() == sample_rate,
    {
        proof {
            presets_are_in_range(FxPreset::Dry);
        }
        let set = ChainSettings::default();
        Chain {
            sample_rate,
            bypass: true,
            set,
            preset: FxPreset::Dry,
            delay: DelayTap::new(sample_rate, set.delay_note),
            silence_run: u32::MAX,
            tail_samples: sample_rate,
        }
    }

    pub fn sample_rate(&self) -> (r: u32)
        ensures
            r == self.rate(),
    {
        self.sample_rate
    }

    pub fn settings(&self) -> (r: ChainSettings)
        ensures
            r@ == self.knobs(),
    {
        self.set
    }

    pub fn preset(&self) -> (r: FxPreset)
        ensures
            r == self.spec_preset(),
    {
        self.preset
    }

    pub fn bypassed(&self) -> (r: bool)
        ensures
            r == self.spec_bypass(),
    {
        self.bypass
    }

    pub fn enabled(&self, slot: FxSlot) -> (r: bool)
        ensures
            r == self.knobs().enabled[slot.place()],
    {
        self.set.enabled[slot.index()]
    }

    /// Longest silence after which the chain may stop working.
    pub fn tail_samples(&self) -> (r: u32)
        ensures
            r == self.tail(),
    {
        self.tail_samples
    }

    /// Set the longest silence after which nothing can come out.
    pub fn set_tail(&mut self, tail_samples: u32)
        ensures
            final(self).tail() == tail_samples,
            final(self).rate() == old(self).rate(),
            final(self).silence() == old(self).silence(),
            final(self).knobs() == old(self).knobs(),
            final(self).spec_preset() == old(self).spec_preset(),
            final(self).spec_bypass() == old(self).spec_bypass(),
            final(self).tap() == old(self).tap(),
    {
        self.tail_samples = tail_samples;
    }

    /// The snapshot of this chain. `reduction_db` comes from the compressor.
    pub fn status(&self, reduction_db: Single) -> (r: FxStatus)
        ensures
            r.bypass == self.spec_bypass(),
            r.preset == self.spec_preset(),
            r.settings@ == self.knobs(),
            r.delay_samples == self.tap().target(),
            r.reduction_db == reduction_db,
    {
        FxStatus {
            bypass: self.bypass,
            preset: self.preset,
            settings: self.set,
            delay_samples: self.delay.target_tap_samples(),
            reduction_db,
        }
    }

    /// Where the delay line is read.
    pub fn delay(&self) -> (r: DelayTap)
        ensures
            r == self.tap(),
    {
        self.delay
    }

    /// Tell the chain the tempo. The answer is whether the delay heads for another tap.
    pub fn set_tempo(&mut self, bpm: Bpm) -> (moved: bool)
        requires
            bpm.valid(),
            old(self).wf(),
        ensures
            final(self).wf(),
            retuned(old(self).tap(), final(self).tap(), bpm),
            moved == (final(self).tap().target() != old(self).tap().target()),
            final(self).knobs() == old(self).knobs(),
            final(self).spec_preset() == old(self).spec_preset(),
            final(self).spec_bypass() == old(self).spec_bypass(),
            final(self).same_motion(*old(self)),
    {
        let before: u64 = self.delay.target_tap_samples();
        self.delay.set_tempo(bpm);
        self.delay.target_tap_samples() != before
    }

    pub fn set_bypass(&mut self, on: bool)
        ensures
            final(self).spec_bypass() == on,
            final(self).knobs() == old(self).knobs(),
            final(self).spec_preset() == old(self).spec_preset(),
            final(self).tap() == old(self).tap(),
            final(self).same_motion(*old(self)),
    {
        self.bypass = on;
    }

    /// Switch one effect. The answer is whether anything changed; a chain that was changed by hand
    /// is no preset any more.
    pub fn set_enabled(&mut self, slot: FxSlot, on: bool) -> (changed: bool)
        requires
            old(self).wf(),
        ensures
            final(self).wf(),
            changed == (old(self).knobs().enabled[slot.place()] != on),
            final(self).knobs() == (Knobs {
                enabled: old(self).knobs().enabled.update(slot.place(), on),
                ..old(self).knobs()
            }),
            final(self).spec_preset() == (if changed {
                FxPreset::Custom
            } else {
                old(self).spec_preset()
            }),
            final(self).spec_bypass() == old(self).spec_bypass(),
            final(self).tap() == old(self).tap(),
            final(self).same_motion(*old(self)),
    {
        let i: usize = slot.index();
        if self.set.enabled[i] == on {
            assert(self.knobs() =~= (Knobs {
                enabled: old(self).knobs().enabled.update(slot.place(), on),
                ..old(self).knobs()
            }));
            return false;
        }
        self.set.enabled[i] = on;
        self.preset = FxPreset::Custom;
        assert(self.knobs() =~= (Knobs {
            enabled: old(self).knobs().enabled.update(slot.place(), on),
            ..old(self).knobs()
        }));
        assert(self.knobs().ranged() =~= self.knobs());
        true
    }

    /// Load a named chain. Everything ramps, so this is safe to do while the music runs.
    pub fn load_preset(&mut self, preset: FxPreset)
        requires
            old(self).wf(),
        ensures
            final(self).wf(),
            final(self).knobs() == preset_knobs(preset),
            final(self).spec_preset() == preset,
            final(self).spec_bypass() == (preset == FxPreset::Dry),
            renoted(old(self).tap(), final(self).tap(), preset_knobs(preset).delay_note),
            final(self).same_motion(*old(self)),
    {
        proof {
            presets_are_in_range(preset);
        }
        self.apply_settings(preset.settings());
        self.bypass = preset.bypasses();
        self.preset = preset;
    }

    /// Take over a whole set of knobs, each moved into its range.
    pub fn apply_settings(&mut self, settings: ChainSettings)
        requires
            old(self).wf(),
        ensures
            final(self).wf(),
            final(self).knobs() == settings@.ranged(),
            renoted(old(self).tap(), final(self).tap(), settings.delay_note),
            final(self).spec_preset() == old(self).spec_preset(),
            final(self).spec_bypass() == old(self).spec_bypass(),
            final(self).same_motion(*old(self)),
    {
        let zero = Single { bits: ZERO };
        let one = Single { bits: ONE };
        self.set = settings;
        self.set.high_pass_hz =
        settings.high_pass_hz.clamp(Single { bits: TWENTY }, Single { bits: THOUSAND });
        self.set.bands =
        [
            settings.bands[0].clamped(),
            settings.bands[1].clamped(),
            settings.bands[2].clamped(),
        ];
        self.set.comp = settings.comp.clamped();
        self.set.delay_feedback = settings.delay_feedback.clamp(zero, Single { bits: FEEDBACK_MOST });
        self.set.delay_mix = settings.delay_mix.clamp(zero, one);
        self.set.reverb_size = settings.reverb_size.clamp(zero, one);
        self.set.reverb_damping = settings.reverb_damping.clamp(zero, one);
        self.set.reverb_mix = settings.reverb_mix.clamp(zero, one);
        self.delay.set_note(settings.delay_note);
        assert(self.knobs() =~= settings@.ranged());
        assert(self.knobs().ranged() =~= self.knobs());
    }

    /// One knob. Marks the chain as edited, so the display stops claiming a preset it no longer is.
    pub fn set_param(&mut self, param: FxParam)
        requires
            old(self).wf(),
        ensures
            final(self).wf(),
            final(self).knobs() == turned(old(self).knobs(), param),
            final(self).spec_preset() == FxPreset::Custom,
            final(self).spec_bypass() == old(self).spec_bypass(),
            match param {
                FxParam::DelayNote(note) => renoted(old(self).tap(), final(self).tap(), note),
                _ => final(self).tap() == old(self).tap(),
            },
            final(self).same_motion(*old(self)),
    {
        let zero = Single { bits: ZERO };
        let one = Single { bits: ONE };
        match param {
            FxParam::HighPassHz(hz) => {
                self.set.high_pass_hz = hz.clamp(Single { bits: TWENTY }, Single { bits: THOUSAND });
            },
            FxParam::BandKind { band, kind } => {
                if band < 3 {
                    self.set.bands[band] = BandSettings { kind, ..self.set.bands[band] };
                }
            },
            FxParam::BandHz { band, hz } => {
                if band < 3 {
                    let hz: Single = hz.clamp(
                        Single { bits: TWENTY },
                        Single { bits: TWENTY_THOUSAND },
                    );
                    self.set.bands[band] = BandSettings { hz, ..self.set.bands[band] };
                }
            },
            FxParam::BandQ { band, q } => {
                if band < 3 {
                    let q: Single = q.clamp(Single { bits: TENTH }, Single { bits: TWELVE });
                    self.set.bands[band] = BandSettings { q, ..self.set.bands[band] };
                }
            },
            FxParam::BandGainDb { band, db } => {
                if band < 3 {
                    let gain_db: Single = db.clamp(
                        Single { bits: MINUS_TWENTY_FOUR },
                        Single { bits: TWENTY_FOUR },
                    );
                    self.set.bands[band] = BandSettings { gain_db, ..self.set.bands[band] };
                }
            },
            FxParam::CompThresholdDb(v) => {
                self.set.comp = CompSettings { threshold_db: v, ..self.set.comp }.clamped();
            },
            FxParam::CompRatio(v) => {
                self.set.comp = CompSettings { ratio: v, ..self.set.comp }.clamped();
            },
            FxParam::CompAttackMs(v) => {
                self.set.comp = CompSettings { attack_ms: v, ..self.set.comp }.clamped();
            },
            FxParam::CompReleaseMs(v) => {
                self.set.comp = CompSettings { release_ms: v, ..self.set.comp }.clamped();
            },
            FxParam::CompKneeDb(v) => {
                self.set.comp = CompSettings { knee_db: v, ..self.set.comp }.clamped();
            },
            FxParam::CompMakeupDb(v) => {
                self.set.comp = CompSettings { makeup_db: v, ..self.set.comp }.clamped();
            },
            FxParam::DelayNote(note) => {
                self.set.delay_note = note;
                self.delay.set_note(note);
            },
            FxParam::DelayFeedback(v) => {
                self.set.delay_feedback = v.clamp(zero, Single { bits: FEEDBACK_MOST });
            },
            FxParam::DelayMix(v) => {
                self.set.delay_mix = v.clamp(zero, one);
            },
            FxParam::ReverbSize(v) => {
                self.set.reverb_size = v.clamp(zero, one);
            },
            FxParam::ReverbDamping(v) => {
                self.set.reverb_damping = v.clamp(zero, one);
            },
            FxParam::ReverbMix(v) => {
                self.set.reverb_mix = v.clamp(zero, one);
            },
        }
        self.preset = FxPreset::Custom;
        proof {
            assert(self.knobs() =~= turned(old(self).knobs(), param));
            turning_a_knob_keeps_the_ranges(old(self).knobs(), param);
        }
    }

    /// What to do with one frame. `at_rest` says that the bypass crossfade has reached exactly
    /// zero; until then a bypassed chain is still fading out and has to keep running. An idle chain
    /// costs one comparison per frame, and the very next frame of music wakes it up.
    pub fn gate(&mut self, x: Frame, at_rest: bool) -> (r: Gate)
        ensures
            r == (if old(self).spec_bypass() && at_rest {
                Gate::Through
            } else if x.l.zero() && x.r.zero() && old(self).silence() >= old(self).tail() {
                Gate::Idle
            } else {
                Gate::Run
            }),
            final(self).silence() == (if r == Gate::Through {
                u32::MAX as int
            } else if r == Gate::Idle {
                old(self).silence()
            } else if x.l.zero() && x.r.zero() {
                old(self).silence() + 1
            } else {
                0
            }),
            r == gate_for(
                old(self).spec_bypass() && at_rest,
                x.l.zero() && x.r.zero(),
                old(self).silence(),
                old(self).tail(),
            ),
            final(self).silence() == silence_after(
                old(self).spec_bypass() && at_rest,
                x.l.zero() && x.r.zero(),
                old(self).silence(),
                old(self).tail(),
            ),
            final(self).rate() == old(self).rate(),
            final(self).tail() == old(self).tail(),
            final(self).knobs() == old(self).knobs(),
            final(self).spec_preset() == old(self).spec_preset(),
            final(self).spec_bypass() == old(self).spec_bypass(),
            final(self).tap() == old(self).tap(),
    {
        if self.bypass && at_rest {
            self.silence_run = u32::MAX;
            return Gate::Through;
        }
        if x.is_silent() {
            if self.silence_run >= self.tail_samples {
                return Gate::Idle;
            }
            self.silence_run = self.silence_run + 1;
        } else {
            self.silence_run = 0;
        }
        Gate::Run
    }
}

// ---------------------------------------------------------------------------------------------
// Laws
// ---------------------------------------------------------------------------------------------

/// Every preset stands inside the knob ranges, so loading one stores exactly its values.
pub proof fn presets_are_in_range(preset: FxPreset)
    ensures
        preset_knobs(preset).shaped(),
        preset_knobs(preset).ranged() == preset_knobs(preset),
{
    let knobs = preset_knobs(preset);
    assert(knobs.ranged().bands =~= knobs.bands);
    assert(knobs.ranged() =~= knobs);
}

/// Whatever is turned, every knob stays inside its range.
pub proof fn turning_a_knob_keeps_the_ranges(knobs: Knobs, param: FxParam)
    requires
        knobs.shaped(),
        knobs == knobs.ranged(),
    ensures
        turned(knobs, param).shaped(),
        turned(knobs, param) == turned(knobs, param).ranged(),
{
    let after = turned(knobs, param);
    assert forall|i: int| 0 <= i < after.bands.len() implies #[trigger] after.bands[i].ranged()
        == after.bands[i] by {
        assert(knobs.bands[i] == knobs.ranged().bands[i]);
    }
    assert(after.ranged().bands =~= after.bands);
    assert(after.ranged() =~= after);
}

/// Moving every knob into its range twice is doing it once.
pub proof fn ranging_twice_is_ranging_once(knobs: Knobs)
    ensures
        knobs.ranged().ranged() == knobs.ranged(),
{
    let once = knobs.ranged();
    assert forall|i: int| 0 <= i < once.bands.len() implies #[trigger] once.bands[i].ranged()
        == once.bands[i] by {
        lemma_band_ranged_twice(knobs.bands[i]);
    }
    assert(once.ranged().bands =~= once.bands);
    lemma_comp_ranged_twice(knobs.comp);
    lemma_shares_ranged_twice(knobs);
    assert(once.ranged() =~= once);
}

proof fn lemma_band_ranged_twice(band: BandSettings)
    ensures
        band.ranged().ranged() == band.ranged(),
{
}

proof fn lemma_comp_ranged_twice(comp: CompSettings)
    ensures
        comp.ranged().ranged() == comp.ranged(),
{
}

proof fn lemma_shares_ranged_twice(knobs: Knobs)
    ensures
        in_high_pass_range(in_high_pass_range(knobs.high_pass_hz)) == in_high_pass_range(
            knobs.high_pass_hz,
        ),
        in_feedback_range(in_feedback_range(knobs.delay_feedback)) == in_feedback_range(
            knobs.delay_feedback,
        ),
        in_share_range(in_share_range(knobs.delay_mix)) == in_share_range(knobs.delay_mix),
        in_share_range(in_share_range(knobs.reverb_size)) == in_share_range(knobs.reverb_size),
        in_share_range(in_share_range(knobs.reverb_damping)) == in_share_range(
            knobs.reverb_damping,
        ),
        in_share_range(in_share_range(knobs.reverb_mix)) == in_share_range(knobs.reverb_mix),
{
}

/// Turning a knob never switches an effect.
pub proof fn turning_a_knob_switches_nothing(knobs: Knobs, param: FxParam)
    ensures
        turned(knobs, param).enabled == knobs.enabled,
{
}

/// A band index that does not exist changes nothing.
pub proof fn a_band_that_does_not_exist_is_ignored(knobs: Knobs, param: FxParam, at: usize)
    requires
        at >= knobs.bands.len(),
        match param {
            FxParam::BandKind { band, .. } => band == at,
            FxParam::BandHz { band, .. } => band == at,
            FxParam::BandQ { band, .. } => band == at,
            FxParam::BandGainDb { band, .. } => band == at,
            _ => false,
        },
    ensures
        turned(knobs, param) == knobs,
{
}

/// The guitar's high-pass sits higher than the voice's.
pub proof fn the_guitar_is_cut_higher_than_the_voice()
    ensures
        preset_knobs(FxPreset::Voice).high_pass_hz.lt(
            preset_knobs(FxPreset::PiezoGuitar).high_pass_hz,
        ),
{
}

/// The name of a slot reads back as that slot.
pub proof fn slot_names_read_back(slot: FxSlot)
    ensures
        slot_of_name(slot_name(slot)) == Some(slot),
{
    reveal_strlit("high_pass");
    reveal_strlit("eq");
    reveal_strlit("comp");
    reveal_strlit("delay");
    reveal_strlit("reverb");
    assert("high_pass"@.len() == 9 && "eq"@.len() == 2 && "comp"@.len() == 4 && "delay"@.len() == 5
        && "reverb"@.len() == 6);
}

/// The number of a slot is its place in the signal path plus one.
pub proof fn slots_are_numbered_in_signal_order(slot: FxSlot)
    ensures
        slots()[slot.place()] == slot,
        0 <= slot.place() < FX_SLOTS,
{
}

/// The label of every preset that can be loaded reads back as that preset.
pub proof fn preset_labels_read_back(preset: FxPreset)
    requires
        preset != FxPreset::Custom,
    ensures
        preset_of_word(lower(trimmed(preset_label(preset)))) == Some(preset),
{
    reveal_strlit("trocken");
    reveal_strlit("stimme");
    reveal_strlit("gitarre");
    reveal_strlit("dry");
    reveal_strlit("aus");
    reveal_strlit("voice");
    reveal_strlit("gesang");
    let label = preset_label(preset);
    assert(trimmed(label) == label);
    assert(ascii_lower(label) =~= label);
    assert(vstd::utf8::is_ascii_chars(label));
    assert("stimme"@[0] == 's' && "gesang"@[0] == 'g');
    assert("gitarre"@[0] == 'g' && "trocken"@[0] == 't');
}

/// The report "eigen" cannot be loaded.
pub proof fn an_edited_chain_is_no_choice()
    ensures
        preset_of_word(lower(trimmed(preset_label(FxPreset::Custom)))) is None,
{
    reveal_strlit("eigen");
    reveal_strlit("trocken");
    reveal_strlit("stimme");
    reveal_strlit("gitarre");
    reveal_strlit("dry");
    reveal_strlit("aus");
    reveal_strlit("voice");
    reveal_strlit("gesang");
    reveal_strlit("piezo");
    reveal_strlit("guitar");
    let label = preset_label(FxPreset::Custom);
    assert(trimmed(label) == label);
    assert(ascii_lower(label) =~= label);
    assert(vstd::utf8::is_ascii_chars(label));
    assert("eigen"@[0] == 'e' && "voice"@[0] == 'v' && "piezo"@[0] == 'p');
}

/// The label of every note value reads back as that note value.
pub proof fn note_labels_read_back(note: DelayNote)
    ensures
        note_of_word(lower(trimmed(note_label(note)))) == Some(note),
{
    reveal_strlit("1/4");
    reveal_strlit("1/8.");
    reveal_strlit("1/8");
    reveal_strlit("1/8T");
    reveal_strlit("1/8t");
    reveal_strlit("4");
    reveal_strlit("viertel");
    reveal_strlit("8.");
    reveal_strlit("punktiert");
    reveal_strlit("8");
    reveal_strlit("achtel");
    let label = note_label(note);
    assert(trimmed(label) == label);
    assert(vstd::utf8::is_ascii_chars(label));
    match note {
        DelayNote::TripletEighth => {
            assert(ascii_lower("1/8T"@) =~= "1/8t"@);
            assert("1/8t"@[3] == 't' && "1/8."@[3] == '.');
        },
        _ => {
            assert(ascii_lower(label) =~= label);
            assert("1/8"@[2] == '8' && "1/4"@[2] == '4');
        },
    }
}

/// A knob of a band that exists takes the value, moved into its range. The other knobs of the band,
/// the other bands and everything outside the equaliser stay as they are.
pub proof fn a_band_knob_turns_its_own_band(
    knobs: Knobs,
    at: usize,
    kind: BandKind,
    value: Single,
)
    requires
        knobs.shaped(),
        at < 3,
    ensures
        ({
            let before = knobs.bands[at as int];
            let after = turned(knobs, FxParam::BandKind { band: at, kind }).bands[at as int];
            after.kind == kind && after.hz == before.hz && after.q == before.q && after.gain_db
                == before.gain_db
        }),
        ({
            let before = knobs.bands[at as int];
            let after = turned(knobs, FxParam::BandHz { band: at, hz: value }).bands[at as int];
            // 20 Hz to 20 kHz
            after.hz == value.clamped(single(0x41a0_0000), single(0x469c_4000)) && after.kind
                == before.kind && after.q == before.q && after.gain_db == before.gain_db
        }),
        ({
            let before = knobs.bands[at as int];
            let after = turned(knobs, FxParam::BandQ { band: at, q: value }).bands[at as int];
            // 0.1 to 12
            after.q == value.clamped(single(0x3dcc_cccd), single(0x4140_0000)) && after.kind
                == before.kind && after.hz == before.hz && after.gain_db == before.gain_db
        }),
        ({
            let before = knobs.bands[at as int];
            let after = turned(knobs, FxParam::BandGainDb { band: at, db: value }).bands[at as int];
            // -24 dB to 24 dB
            after.gain_db == value.clamped(single(0xc1c0_0000), single(0x41c0_0000)) && after.kind
                == before.kind && after.hz == before.hz && after.q == before.q
        }),
        forall|i: int| #![trigger knobs.bands[i]]
            0 <= i < 3 && i != at ==> {
                &&& turned(knobs, FxParam::BandKind { band: at, kind }).bands[i] == knobs.bands[i]
                &&& turned(knobs, FxParam::BandHz { band: at, hz: value }).bands[i]
                    == knobs.bands[i]
                &&& turned(knobs, FxParam::BandQ { band: at, q: value }).bands[i] == knobs.bands[i]
                &&& turned(knobs, FxParam::BandGainDb { band: at, db: value }).bands[i]
                    == knobs.bands[i]
            },
        same_beside_bands(turned(knobs, FxParam::BandKind { band: at, kind }), knobs),
        same_beside_bands(turned(knobs, FxParam::BandHz { band: at, hz: value }), knobs),
        same_beside_bands(turned(knobs, FxParam::BandQ { band: at, q: value }), knobs),
        same_beside_bands(turned(knobs, FxParam::BandGainDb { band: at, db: value }), knobs),
{
}

/// Two settings that agree in everything but the values of the bands.
pub open spec fn same_beside_bands(a: Knobs, b: Knobs) -> bool {
    a.bands.len() == b.bands.len() && a == (Knobs { bands: a.bands, ..b })
}

/// A knob of the compressor takes the value, moved into its range. The other five keep theirs where
/// they stood in their ranges, and nothing else moves.
pub proof fn a_compressor_knob_turns_alone(knobs: Knobs, value: Single)
    requires
        knobs == knobs.ranged(),
    ensures
        turned(knobs, FxParam::CompThresholdDb(value)) == (Knobs {
            comp: CompSettings {
                // -60 dB to 0 dB
                threshold_db: value.clamped(single(0xc270_0000), single(0)),
                ..knobs.comp
            },
            ..knobs
        }),
        turned(knobs, FxParam::CompRatio(value)) == (Knobs {
            comp: CompSettings {
                // 1 to 20
                ratio: value.clamped(single(0x3f80_0000), single(0x41a0_0000)),
                ..knobs.comp
            },
            ..knobs
        }),
        turned(knobs, FxParam::CompAttackMs(value)) == (Knobs {
            comp: CompSettings {
                // 0.1 ms to 200 ms
                attack_ms: value.clamped(single(0x3dcc_cccd), single(0x4348_0000)),
                ..knobs.comp
            },
            ..knobs
        }),
        turned(knobs, FxParam::CompReleaseMs(value)) == (Knobs {
            comp: CompSettings {
                // 5 ms to 2000 ms
                release_ms: value.clamped(single(0x40a0_0000), single(0x44fa_0000)),
                ..knobs.comp
            },
            ..knobs
        }),
        turned(knobs, FxParam::CompKneeDb(value)) == (Knobs {
            comp: CompSettings {
                // 0 dB to 24 dB
                knee_db: value.clamped(single(0), single(0x41c0_0000)),
                ..knobs.comp
            },
            ..knobs
        }),
        turned(knobs, FxParam::CompMakeupDb(value)) == (Knobs {
            comp: CompSettings {
                // -24 dB to 24 dB
                makeup_db: value.clamped(single(0xc1c0_0000), single(0x41c0_0000)),
                ..knobs.comp
            },
            ..knobs
        }),
{
    assert(knobs.comp == knobs.comp.ranged());
}

/// A knob outside the equaliser and the compressor takes the value, moved into its range, and
/// nothing else moves.
pub proof fn a_chain_knob_turns_alone(knobs: Knobs, value: Single, note: DelayNote)
    ensures
        // 20 Hz to 1 kHz
        turned(knobs, FxParam::HighPassHz(value)) == (Knobs {
            high_pass_hz: value.clamped(single(0x41a0_0000), single(0x447a_0000)),
            ..knobs
        }),
        turned(knobs, FxParam::DelayNote(note)) == (Knobs { delay_note: note, ..knobs }),
        // 0 to 0.95
        turned(knobs, FxParam::DelayFeedback(value)) == (Knobs {
            delay_feedback: value.clamped(single(0), single(0x3f73_3333)),
            ..knobs
        }),
        // 0 to 1
        turned(knobs, FxParam::DelayMix(value)) == (Knobs {
            delay_mix: value.clamped(single(0), single(0x3f80_0000)),
            ..knobs
        }),
        turned(knobs, FxParam::ReverbSize(value)) == (Knobs {
            reverb_size: value.clamped(single(0), single(0x3f80_0000)),
            ..knobs
        }),
        turned(knobs, FxParam::ReverbDamping(value)) == (Knobs {
            reverb_damping: value.clamped(single(0), single(0x3f80_0000)),
            ..knobs
        }),
        turned(knobs, FxParam::ReverbMix(value)) == (Knobs {
            reverb_mix: value.clamped(single(0), single(0x3f80_0000)),
            ..knobs
        }),
{
}

/// Of two turns of one knob the later one counts.
pub proof fn the_later_turn_counts(knobs: Knobs, at: usize, first: Single, then: Single)
    requires
        knobs.shaped(),
    ensures
        turned(
            turned(knobs, FxParam::BandGainDb { band: at, db: first }),
            FxParam::BandGainDb { band: at, db: then },
        ) == turned(knobs, FxParam::BandGainDb { band: at, db: then }),
        turned(
            turned(knobs, FxParam::BandHz { band: at, hz: first }),
            FxParam::BandHz { band: at, hz: then },
        ) == turned(knobs, FxParam::BandHz { band: at, hz: then }),
        turned(
            turned(knobs, FxParam::BandQ { band: at, q: first }),
            FxParam::BandQ { band: at, q: then },
        ) == turned(knobs, FxParam::BandQ { band: at, q: then }),
        turned(turned(knobs, FxParam::HighPassHz(first)), FxParam::HighPassHz(then)) == turned(
            knobs,
            FxParam::HighPassHz(then),
        ),
        turned(turned(knobs, FxParam::DelayMix(first)), FxParam::DelayMix(then)) == turned(
            knobs,
            FxParam::DelayMix(then),
        ),
        turned(turned(knobs, FxParam::ReverbMix(first)), FxParam::ReverbMix(then)) == turned(
            knobs,
            FxParam::ReverbMix(then),
        ),
{
    assert(turned(
        turned(knobs, FxParam::BandGainDb { band: at, db: first }),
        FxParam::BandGainDb { band: at, db: then },
    ) =~= turned(knobs, FxParam::BandGainDb { band: at, db: then }));
    assert(turned(
        turned(knobs, FxParam::BandHz { band: at, hz: first }),
        FxParam::BandHz { band: at, hz: then },
    ) =~= turned(knobs, FxParam::BandHz { band: at, hz: then }));
    assert(turned(
        turned(knobs, FxParam::BandQ { band: at, q: first }),
        FxParam::BandQ { band: at, q: then },
    ) =~= turned(knobs, FxParam::BandQ { band: at, q: then }));
}

/// Whatever a set of knobs holds, moving it into the ranges keeps what lies inside them, and keeps
/// the switches, the kinds of the bands and the note value in any case.
pub proof fn ranging_keeps_what_fits(knobs: Knobs, i: int)
    requires
        0 <= i < knobs.bands.len(),
    ensures
        knobs.ranged().enabled == knobs.enabled,
        knobs.ranged().delay_note == knobs.delay_note,
        knobs.ranged().bands.len() == knobs.bands.len(),
        knobs.ranged().bands[i].kind == knobs.bands[i].kind,
        knobs.ranged().bands[i].gain_db == knobs.bands[i].gain_db.clamped(
            single(0xc1c0_0000),
            single(0x41c0_0000),
        ),
        knobs.ranged().bands[i].hz == knobs.bands[i].hz.clamped(
            single(0x41a0_0000),
            single(0x469c_4000),
        ),
        knobs.ranged().bands[i].q == knobs.bands[i].q.clamped(
            single(0x3dcc_cccd),
            single(0x4140_0000),
        ),
        knobs.ranged().high_pass_hz == knobs.high_pass_hz.clamped(
            single(0x41a0_0000),
            single(0x447a_0000),
        ),
        knobs.ranged().delay_feedback == knobs.delay_feedback.clamped(
            single(0),
            single(0x3f73_3333),
        ),
        knobs.ranged().delay_mix == knobs.delay_mix.clamped(single(0), single(0x3f80_0000)),
        knobs.ranged().reverb_size == knobs.reverb_size.clamped(single(0), single(0x3f80_0000)),
        knobs.ranged().reverb_damping == knobs.reverb_damping.clamped(
            single(0),
            single(0x3f80_0000),
        ),
        knobs.ranged().reverb_mix == knobs.reverb_mix.clamped(single(0), single(0x3f80_0000)),
        knobs.ranged().comp.threshold_db == knobs.comp.threshold_db.clamped(
            single(0xc270_0000),
            single(0),
        ),
        knobs.ranged().comp.ratio == knobs.comp.ratio.clamped(
            single(0x3f80_0000),
            single(0x41a0_0000),
        ),
        knobs.ranged().comp.attack_ms == knobs.comp.attack_ms.clamped(
            single(0x3dcc_cccd),
            single(0x4348_0000),
        ),
        knobs.ranged().comp.release_ms == knobs.comp.release_ms.clamped(
            single(0x40a0_0000),
            single(0x44fa_0000),
        ),
        knobs.ranged().comp.knee_db == knobs.comp.knee_db.clamped(single(0), single(0x41c0_0000)),
        knobs.ranged().comp.makeup_db == knobs.comp.makeup_db.clamped(
            single(0xc1c0_0000),
            single(0x41c0_0000),
        ),
{
}

/// An eighth is half a quarter, three of a triplet fill a quarter, and a dotted eighth is an eighth
/// and a half.
pub proof fn note_values_share_a_quarter()
    ensures
        DelayNote::Quarter.share().0 == DelayNote::Quarter.share().1,
        2 * DelayNote::Eighth.share().0 == DelayNote::Eighth.share().1,
        3 * DelayNote::TripletEighth.share().0 == DelayNote::TripletEighth.share().1,
        2 * DelayNote::DottedEighth.share().0 * DelayNote::Eighth.share().1 == 3
            * DelayNote::Eighth.share().0 * DelayNote::DottedEighth.share().1,
{
}

/// A display letter stands exactly for an effect that is on.
pub proof fn letters_show_what_is_on(enabled: Seq<bool>, slot: FxSlot)
    requires
        enabled.len() == FX_SLOTS,
    ensures
        status_letters(enabled).len() == 5,
        enabled[slot.place()] ==> status_letters(enabled)[slot.place()] == slot_letter(slot),
        !enabled[slot.place()] ==> status_letters(enabled)[slot.place()] == '-',
        slot_letter(slot) != '-',
        forall|other: FxSlot| #[trigger] slot_letter(other) == slot_letter(slot) ==> other == slot,
{
}

/// A chain rests only once it has been silent for longer than its tail, and any sound wakes it: from
/// then on it runs for at least the whole tail. A bypassed chain lets everything through.
pub proof fn a_chain_rests_only_behind_its_tail(silent: bool, silence: int, tail: int)
    requires
        0 <= silence,
        0 <= tail,
    ensures
        gate_for(true, silent, silence, tail) == Gate::Through,
        gate_for(false, false, silence, tail) == Gate::Run,
        silence_after(false, false, silence, tail) == 0,
        gate_for(false, true, silence, tail) == Gate::Idle <==> silence >= tail,
        silence < tail ==> gate_for(false, true, silence, tail) == Gate::Run && silence_after(
            false,
            true,
            silence,
            tail,
        ) == silence + 1,
        silence >= tail ==> silence_after(false, true, silence, tail) == silence,
        gate_for(false, silent, silence, tail) != Gate::Through,
{
}

/// The ready-made chains work on tone, level and room and leave the delay off; their bands go up in
/// frequency and end in a shelf that lifts the top, the compressor makes up for what it takes, and
/// the dry chain has nothing switched on and nothing mixed in.
pub proof fn ready_made_chains_do_what_they_are_for(preset: FxPreset)
    ensures
        ({
            let knobs = preset_knobs(preset);
            let zero = Single { bits: 0 };
            let dry = preset == FxPreset::Dry || preset == FxPreset::Custom;
            &&& forall|slot: FxSlot| #[trigger]
                knobs.enabled[slot.place()] == (!dry && slot != FxSlot::Delay)
            &&& dry ==> knobs.delay_mix == zero && knobs.reverb_mix == zero
                && knobs.comp.makeup_db == zero
            &&& dry ==> forall|i: int| 0 <= i < 3 ==> (#[trigger] knobs.bands[i]).gain_db == zero
            &&& !dry ==> knobs.high_pass_hz.lt(knobs.bands[0].hz) && knobs.bands[0].hz.lt(
                knobs.bands[1].hz,
            ) && knobs.bands[1].hz.lt(knobs.bands[2].hz)
            &&& !dry ==> knobs.bands[0].kind == BandKind::Peak && knobs.bands[1].kind
                == BandKind::Peak && knobs.bands[2].kind == BandKind::HighShelf
            &&& !dry ==> knobs.bands[0].gain_db.lt(zero) && zero.lt(knobs.bands[2].gain_db)
            &&& !dry ==> zero.lt(knobs.comp.makeup_db) && knobs.comp.threshold_db.lt(zero)
                && knobs.comp.attack_ms.lt(knobs.comp.release_ms)
            &&& !dry ==> zero.lt(knobs.reverb_mix) && zero.lt(knobs.delay_mix)
            &&& knobs.delay_note == DelayNote::DottedEighth
        }),
{
}

/// The voice is lifted where the words are, the guitar is cut there; the voice is held tighter,
/// caught sooner and given more of the room.
pub proof fn the_voice_stands_in_front_of_the_guitar(voice: Knobs, guitar: Knobs)
    requires
        voice == preset_knobs(FxPreset::Voice),
        guitar == preset_knobs(FxPreset::PiezoGuitar),
    ensures
        voice.bands[1].hz == guitar.bands[1].hz,
        (Single { bits: 0 }).lt(voice.bands[1].gain_db),
        guitar.bands[1].gain_db.lt(Single { bits: 0 }),
        guitar.bands[0].hz.lt(voice.bands[0].hz),
        guitar.comp.ratio.lt(voice.comp.ratio),
        voice.comp.threshold_db.lt(guitar.comp.threshold_db),
        voice.comp.attack_ms.lt(guitar.comp.attack_ms),
        voice.comp.release_ms.lt(guitar.comp.release_ms),
        guitar.comp.makeup_db.lt(voice.comp.makeup_db),
        guitar.reverb_mix.lt(voice.reverb_mix),
        guitar.reverb_size.lt(voice.reverb_size),
{
}

} // verus!
