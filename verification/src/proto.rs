//! What travels between the engine side and the window.
//!
//! Two conventions run through the whole file:
//!
//! * **Indices are zero-based.** `track` and `layer` in a command are positions in the `tracks` and
//!   `layers` of [`StatusEvent`].
//! * **Hardware numbers are one-based**, because that is how they are printed on the interface. That
//!   affects `input_channel` and `input_channels`, and every layer additionally carries a `number`
//!   for display next to its zero-based `index`.
//!
//! Every level exists in two forms: `*_peak` is the louder of the two channels, so a display that
//! draws one bar per meter needs no case distinction between a mono and a stereo track; `*_peaks`
//! has one entry per channel. A track's `input_peaks` has one entry when it records mono and two
//! when it records stereo; the output is always two, because the bus is.
use vstd::prelude::*;
use vstd::string::*;
use crate::command::{state_label, TrackState, TrackStatus};
use crate::fx::{
    in_feedback_range,
    in_gain_range,
    in_high_pass_range,
    in_hz_range,
    in_q_range,
    in_share_range,
    note_label,
    preset_label,
    slot_label,
    slots,
    status_letters,
    turned,
    BandKind,
    BandSettings,
    DelayNote,
    FxParam,
    FxPreset,
    FxSlot,
    FxStatus,
    Knobs,
};
use crate::schedule::{pending_label, Lead, PendingKind, Quantize};
use crate::single::Single;
use crate::text::{decimal, push_decimal};
use crate::timeline::Bpm;
use crate::track::{is_muted, mask_bit, UNITY};

verus! {

// ---------------------------------------------------------------------------------------------
// Device listing
// ---------------------------------------------------------------------------------------------

#[derive(Debug)]
pub struct DeviceReport {
    /// Whether this program was built with the ASIO host. Without it that host is missing from
    /// `hosts` and the looper cannot be run at a useful latency.
    pub asio_built: bool,
    pub hosts: Vec<HostInfo>,
}

#[derive(Debug)]
pub struct HostInfo {
    /// The value to pass back as `host` when starting the engine, lowercased: `asio`, `wasapi`.
    pub name: String,
    /// Set when the host could not be opened at all; `devices` is then empty.
    pub error: Option<String>,
    pub default_input: Option<String>,
    pub default_output: Option<String>,
    pub devices: Vec<DeviceInfo>,
}

#[derive(Debug)]
pub struct DeviceInfo {
    /// Pass this back as `device` when starting the engine.
    pub name: String,
    pub input: bool,
    pub output: bool,
    pub input_configs: Vec<ConfigInfo>,
    pub output_configs: Vec<ConfigInfo>,
    /// Why a direction could not be queried, if that happened.
    pub note: Option<String>,
}

#[derive(Debug)]
pub struct ConfigInfo {
    pub channels: u16,
    pub min_sample_rate: u32,
    pub max_sample_rate: u32,
    pub sample_format: String,
    /// Buffer range the driver reports, in frames. None when it reports nothing usable.
    pub min_buffer_frames: Option<u32>,
    pub max_buffer_frames: Option<u32>,
}

// ---------------------------------------------------------------------------------------------
// Starting the engine
// ---------------------------------------------------------------------------------------------

/// One track as the user set it up: a name, the input or input pair it listens on, and where it
/// sits between the speakers.
///
/// Naming one input makes a mono track, naming two makes a stereo one.
#[derive(Debug)]
pub struct TrackConfig {
    pub name: String,
    /// One-based, as printed on the interface. The left one of a stereo pair.
    pub input_channel: u32,
    /// Right-hand input of a stereo track, one-based. None means the track is mono.
    pub input_channel_right: Option<u32>,
    /// -1 hard left, 0 centre, +1 hard right.
    pub pan: Single,
}

impl TrackConfig {
    /// A mono track in the centre.
    pub fn mono(name: &str, input_channel: u32) -> (r: Self)
        ensures
            r.name@ == name@,
            r.input_channel == input_channel,
            r.input_channel_right is None,
            r.pan == (Single { bits: 0 }),
    {
        TrackConfig {
            name: name.to_owned(),
            input_channel,
            input_channel_right: None,
            pan: Single { bits: 0 },
        }
    }

    /// 1 for a mono track, 2 for a stereo one.
    pub fn channels(&self) -> (r: u32)
        ensures
            r == (if self.input_channel_right is Some {
                2u32
            } else {
                1u32
            }),
    {
        if self.input_channel_right.is_some() {
            2
        } else {
            1
        }
    }
}

/// Everything the engine needs to open a device and start counting.
#[derive(Debug)]
pub struct StartConfig {
    /// `asio` or `wasapi`. Only ASIO reaches a usable latency.
    pub host: String,
    /// Case-insensitive substring of the device name; None takes the host default.
    pub device: Option<String>,
    pub sample_rate: u32,
    pub buffer_frames: u32,
    /// None takes what the device reports as its default.
    pub input_channels: Option<u16>,
    pub output_channels: Option<u16>,
    /// Request the buffer size even though the device reports a different range.
    pub force_buffer: bool,
    pub tracks: Vec<TrackConfig>,
    pub bpm: Bpm,
    pub beats_per_bar: u32,
    /// 4 = quarter note gets the beat, 8 = eighth note.
    pub beat_unit: u32,
    /// Loop length in bars.
    pub bars: u32,
    /// Grid a recording and an overdub snap to.
    pub quantize: QuantizeName,
    /// Roundtrip latency removed while recording.
    pub latency_samples: u64,
    pub monitor_gain: Single,
    pub click_gain: Single,
    /// Start with the metronome switched on.
    pub click: bool,
    /// Start with input monitoring switched on, for every track.
    pub monitor: bool,
}

/// Bit pattern of the tempo 100.
pub const DEFAULT_BPM: u64 = 4636737291354636288;

/// The host that reaches a usable latency.
pub fn default_host() -> (r: String)
    ensures
        r@ == "asio"@,
{
    "asio".to_owned()
}

impl StartConfig {
    /// A configuration of which only the tracks are known.
    pub fn of_tracks(tracks: Vec<TrackConfig>) -> (r: Self)
        ensures
            r.host@ == "asio"@,
            r.device is None,
            r.sample_rate == 48_000,
            r.buffer_frames == 128,
            r.input_channels is None,
            r.output_channels is None,
            !r.force_buffer,
            r.tracks == tracks,
            r.bpm == (Bpm { bits: DEFAULT_BPM }),
            r.beats_per_bar == 4,
            r.beat_unit == 4,
            r.bars == 8,
            r.quantize == QuantizeName::Loop,
            r.latency_samples == 827,
            r.monitor_gain == (Single { bits: UNITY }),
            r.click_gain == (Single { bits: UNITY }),
            r.click,
            !r.monitor,
    {
        StartConfig {
            host: default_host(),
            device: None,
            sample_rate: 48_000,
            buffer_frames: 128,
            input_channels: None,
            output_channels: None,
            force_buffer: false,
            tracks,
            bpm: Bpm { bits: DEFAULT_BPM },
            beats_per_bar: 4,
            beat_unit: 4,
            bars: 8,
            quantize: QuantizeName::default(),
            latency_samples: 827,
            monitor_gain: Single { bits: UNITY },
            click_gain: Single { bits: UNITY },
            click: true,
            monitor: false,
        }
    }
}

/// Parameters of a latency check. The device part is the same as in [`StartConfig`].
#[derive(Debug)]
pub struct CalibrateConfig {
    pub host: String,
    pub device: Option<String>,
    pub sample_rate: u32,
    pub buffer_frames: u32,
    pub input_channels: Option<u16>,
    pub output_channels: Option<u16>,
    pub force_buffer: bool,
    pub bpm: Bpm,
    /// Length of one measurement recording in bars.
    pub bars: u32,
    /// The value to check.
    pub latency_samples: u64,
    pub runs: u32,
    pub click_gain: Single,
}

impl Default for CalibrateConfig {
    fn default() -> (r: Self)
        ensures
            r.host@ == "asio"@,
            r.device is None,
            r.sample_rate == 48_000,
            r.buffer_frames == 128,
            r.input_channels is None,
            r.output_channels is None,
            !r.force_buffer,
            r.bpm == (Bpm { bits: DEFAULT_BPM }),
            r.bars == 4,
            r.latency_samples == 827,
            r.runs == 5,
            r.click_gain == (Single { bits: UNITY }),
    {
        CalibrateConfig {
            host: default_host(),
            device: None,
            sample_rate: 48_000,
            buffer_frames: 128,
            input_channels: None,
            output_channels: None,
            force_buffer: false,
            bpm: Bpm { bits: DEFAULT_BPM },
            bars: 4,
            latency_samples: 827,
            runs: 5,
            click_gain: Single { bits: UNITY },
        }
    }
}

/// Result of a calibration run. The full report is in the log file.
#[derive(Debug)]
pub struct CalibrateOutcome {
    pub log_path: String,
    /// German summary, pointing at the log file for the numbers.
    pub message: String,
}

/// What the engine actually opened, so that the numbers the driver agreed to can be shown rather
/// than the ones that were asked for.
#[derive(Debug)]
pub struct EngineInfo {
    pub host: String,
    pub input_device: String,
    pub output_device: String,
    pub input_channels: u16,
    pub output_channels: u16,
    pub input_format: String,
    pub output_format: String,
    pub sample_rate: u32,
    /// Requested buffer size in frames.
    pub buffer_frames: u32,
    /// What the driver reported after the stream was built.
    pub driver_input_frames: Option<u32>,
    pub driver_output_frames: Option<u32>,
    pub bpm: Bpm,
    pub beats_per_bar: u32,
    pub beat_unit: u32,
    pub bars: u32,
    pub loop_samples: u64,
    pub latency_samples: u64,
    /// Length one layer buffer is allocated at, in samples.
    pub layer_capacity: u64,
    pub max_layers: u32,
    pub max_tracks: u32,
    /// Upper bound of the memory a full session can occupy.
    pub memory_bytes: u128,
    pub tracks: Vec<TrackConfig>,
}

/// Static facts about this build.
#[derive(Debug)]
pub struct AppInfo {
    pub version: String,
    /// Full path of the log file this run writes to.
    pub log_path: String,
    /// Whether diagnostics are actually being written.
    pub logging: bool,
    pub asio_built: bool,
    pub max_tracks: u32,
    pub max_layers: u32,
}

// ---------------------------------------------------------------------------------------------
// Names
// ---------------------------------------------------------------------------------------------

/// Which grid a take snaps to, mirroring [`Quantize`] one to one.
#[derive(Clone, Copy, Debug, PartialEq, Eq, Structural)]
pub enum QuantizeName {
    /// Next bar boundary.
    Bar,
    /// Next loop boundary. The default: one early press is enough.
    Loop,
}

impl Default for QuantizeName {
    fn default() -> (r: Self)
        ensures
            r == QuantizeName::Loop,
    {
        QuantizeName::Loop
    }
}

/// The wire name of a value.
pub open spec fn grid_name(v: Quantize) -> QuantizeName {
    match v {
        Quantize::Bar => QuantizeName::Bar,
        Quantize::Loop => QuantizeName::Loop,
    }
}

impl From<Quantize> for QuantizeName {
    fn from(v: Quantize) -> (r: Self) {
        match v {
            Quantize::Bar => QuantizeName::Bar,
            Quantize::Loop => QuantizeName::Loop,
        }
    }
}

impl vstd::std_specs::convert::FromSpecImpl<Quantize> for QuantizeName {
    open spec fn obeys_from_spec() -> bool {
        true
    }

    open spec fn from_spec(v: Quantize) -> Self {
        grid_name(v)
    }
}

/// The value behind a wire name.
pub open spec fn grid_of(v: QuantizeName) -> Quantize {
    match v {
        QuantizeName::Bar => Quantize::Bar,
        QuantizeName::Loop => Quantize::Loop,
    }
}

impl From<QuantizeName> for Quantize {
    fn from(v: QuantizeName) -> (r: Self) {
        match v {
            QuantizeName::Bar => Quantize::Bar,
            QuantizeName::Loop => Quantize::Loop,
        }
    }
}

impl vstd::std_specs::convert::FromSpecImpl<QuantizeName> for Quantize {
    open spec fn obeys_from_spec() -> bool {
        true
    }

    open spec fn from_spec(v: QuantizeName) -> Self {
        grid_of(v)
    }
}

/// What a track is waiting for, mirroring [`PendingKind`] one to one.
#[derive(Clone, Copy, Debug, PartialEq, Eq, Structural)]
pub enum PendingKindName {
    Record,
    Overdub,
    Play,
    Stop,
}

/// The wire name of a value.
pub open spec fn pending_name(v: PendingKind) -> PendingKindName {
    match v {
        PendingKind::Record => PendingKindName::Record,
        PendingKind::Overdub => PendingKindName::Overdub,
        PendingKind::Play => PendingKindName::Play,
        PendingKind::Stop => PendingKindName::Stop,
    }
}

impl From<PendingKind> for PendingKindName {
    fn from(v: PendingKind) -> (r: Self) {
        match v {
            PendingKind::Record => PendingKindName::Record,
            PendingKind::Overdub => PendingKindName::Overdub,
            PendingKind::Play => PendingKindName::Play,
            PendingKind::Stop => PendingKindName::Stop,
        }
    }
}

impl vstd::std_specs::convert::FromSpecImpl<PendingKind> for PendingKindName {
    open spec fn obeys_from_spec() -> bool {
        true
    }

    open spec fn from_spec(v: PendingKind) -> Self {
        pending_name(v)
    }
}

/// Track state, mirroring [`TrackState`] one to one.
#[derive(Clone, Copy, Debug, PartialEq, Eq, Structural)]
pub enum TrackStateName {
    /// No layer.
    Empty,
    /// A recording is scheduled but has not started yet.
    Armed,
    /// The first take is running; it defines loop length and origin.
    Recording,
    /// A further layer is being recorded into the existing loop.
    Overdub,
    /// Content available, silent.
    Ready,
    /// Content available, playing.
    Playing,
}

/// The wire name of a value.
pub open spec fn state_name(v: TrackState) -> TrackStateName {
    match v {
        TrackState::Empty => TrackStateName::Empty,
        TrackState::Armed => TrackStateName::Armed,
        TrackState::Recording => TrackStateName::Recording,
        TrackState::Overdub => TrackStateName::Overdub,
        TrackState::Ready => TrackStateName::Ready,
        TrackState::Playing => TrackStateName::Playing,
    }
}

impl From<TrackState> for TrackStateName {
    fn from(v: TrackState) -> (r: Self) {
        match v {
            TrackState::Empty => TrackStateName::Empty,
            TrackState::Armed => TrackStateName::Armed,
            TrackState::Recording => TrackStateName::Recording,
            TrackState::Overdub => TrackStateName::Overdub,
            TrackState::Ready => TrackStateName::Ready,
            TrackState::Playing => TrackStateName::Playing,
        }
    }
}

impl vstd::std_specs::convert::FromSpecImpl<TrackState> for TrackStateName {
    open spec fn obeys_from_spec() -> bool {
        true
    }

    open spec fn from_spec(v: TrackState) -> Self {
        state_name(v)
    }
}

/// One switchable position in a track's chain, mirroring [`FxSlot`].
#[derive(Clone, Copy, Debug, PartialEq, Eq, Structural)]
pub enum FxSlotName {
    HighPass,
    Eq,
    Comp,
    Delay,
    Reverb,
}

/// The wire name of a value.
pub open spec fn effect_name(v: FxSlot) -> FxSlotName {
    match v {
        FxSlot::HighPass => FxSlotName::HighPass,
        FxSlot::Eq => FxSlotName::Eq,
        FxSlot::Comp => FxSlotName::Comp,
        FxSlot::Delay => FxSlotName::Delay,
        FxSlot::Reverb => FxSlotName::Reverb,
    }
}

impl From<FxSlot> for FxSlotName {
    fn from(v: FxSlot) -> (r: Self) {
        match v {
            FxSlot::HighPass => FxSlotName::HighPass,
            FxSlot::Eq => FxSlotName::Eq,
            FxSlot::Comp => FxSlotName::Comp,
            FxSlot::Delay => FxSlotName::Delay,
            FxSlot::Reverb => FxSlotName::Reverb,
        }
    }
}

impl vstd::std_specs::convert::FromSpecImpl<FxSlot> for FxSlotName {
    open spec fn obeys_from_spec() -> bool {
        true
    }

    open spec fn from_spec(v: FxSlot) -> Self {
        effect_name(v)
    }
}

/// The value behind a wire name.
pub open spec fn effect_of(v: FxSlotName) -> FxSlot {
    match v {
        FxSlotName::HighPass => FxSlot::HighPass,
        FxSlotName::Eq => FxSlot::Eq,
        FxSlotName::Comp => FxSlot::Comp,
        FxSlotName::Delay => FxSlot::Delay,
        FxSlotName::Reverb => FxSlot::Reverb,
    }
}

impl From<FxSlotName> for FxSlot {
    fn from(v: FxSlotName) -> (r: Self) {
        match v {
            FxSlotName::HighPass => FxSlot::HighPass,
            FxSlotName::Eq => FxSlot::Eq,
            FxSlotName::Comp => FxSlot::Comp,
            FxSlotName::Delay => FxSlot::Delay,
            FxSlotName::Reverb => FxSlot::Reverb,
        }
    }
}

impl vstd::std_specs::convert::FromSpecImpl<FxSlotName> for FxSlot {
    open spec fn obeys_from_spec() -> bool {
        true
    }

    open spec fn from_spec(v: FxSlotName) -> Self {
        effect_of(v)
    }
}

/// A ready-made chain, mirroring [`FxPreset`]. `Custom` is reported, never sent: it is what the
/// engine calls a chain whose knobs have been moved since a preset was loaded.
#[derive(Clone, Copy, Debug, PartialEq, Eq, Structural)]
pub enum FxPresetName {
    Dry,
    Voice,
    PiezoGuitar,
    Custom,
}

impl Default for FxPresetName {
    fn default() -> (r: Self)
        ensures
            r == FxPresetName::Dry,
    {
        FxPresetName::Dry
    }
}

/// The wire name of a value.
pub open spec fn preset_name(v: FxPreset) -> FxPresetName {
    match v {
        FxPreset::Dry => FxPresetName::Dry,
        FxPreset::Voice => FxPresetName::Voice,
        FxPreset::PiezoGuitar => FxPresetName::PiezoGuitar,
        FxPreset::Custom => FxPresetName::Custom,
    }
}

impl From<FxPreset> for FxPresetName {
    fn from(v: FxPreset) -> (r: Self) {
        match v {
            FxPreset::Dry => FxPresetName::Dry,
            FxPreset::Voice => FxPresetName::Voice,
            FxPreset::PiezoGuitar => FxPresetName::PiezoGuitar,
            FxPreset::Custom => FxPresetName::Custom,
        }
    }
}

impl vstd::std_specs::convert::FromSpecImpl<FxPreset> for FxPresetName {
    open spec fn obeys_from_spec() -> bool {
        true
    }

    open spec fn from_spec(v: FxPreset) -> Self {
        preset_name(v)
    }
}

/// The value behind a wire name.
pub open spec fn preset_of(v: FxPresetName) -> FxPreset {
    match v {
        FxPresetName::Dry => FxPreset::Dry,
        FxPresetName::Voice => FxPreset::Voice,
        FxPresetName::PiezoGuitar => FxPreset::PiezoGuitar,
        FxPresetName::Custom => FxPreset::Custom,
    }
}

impl From<FxPresetName> for FxPreset {
    fn from(v: FxPresetName) -> (r: Self) {
        match v {
            FxPresetName::Dry => FxPreset::Dry,
            FxPresetName::Voice => FxPreset::Voice,
            FxPresetName::PiezoGuitar => FxPreset::PiezoGuitar,
            FxPresetName::Custom => FxPreset::Custom,
        }
    }
}

impl vstd::std_specs::convert::FromSpecImpl<FxPresetName> for FxPreset {
    open spec fn obeys_from_spec() -> bool {
        true
    }

    open spec fn from_spec(v: FxPresetName) -> Self {
        preset_of(v)
    }
}

/// What one EQ band does, mirroring [`BandKind`].
#[derive(Clone, Copy, Debug, PartialEq, Eq, Structural)]
pub enum BandKindName {
    Peak,
    LowShelf,
    HighShelf,
}

impl Default for BandKindName {
    fn default() -> (r: Self)
        ensures
            r == BandKindName::Peak,
    {
        BandKindName::Peak
    }
}

/// The wire name of a value.
pub open spec fn kind_name(v: BandKind) -> BandKindName {
    match v {
        BandKind::Peak => BandKindName::Peak,
        BandKind::LowShelf => BandKindName::LowShelf,
        BandKind::HighShelf => BandKindName::HighShelf,
    }
}

impl From<BandKind> for BandKindName {
    fn from(v: BandKind) -> (r: Self) {
        match v {
            BandKind::Peak => BandKindName::Peak,
            BandKind::LowShelf => BandKindName::LowShelf,
            BandKind::HighShelf => BandKindName::HighShelf,
        }
    }
}

impl vstd::std_specs::convert::FromSpecImpl<BandKind> for BandKindName {
    open spec fn obeys_from_spec() -> bool {
        true
    }

    open spec fn from_spec(v: BandKind) -> Self {
        kind_name(v)
    }
}

/// The value behind a wire name.
pub open spec fn kind_of(v: BandKindName) -> BandKind {
    match v {
        BandKindName::Peak => BandKind::Peak,
        BandKindName::LowShelf => BandKind::LowShelf,
        BandKindName::HighShelf => BandKind::HighShelf,
    }
}

impl From<BandKindName> for BandKind {
    fn from(v: BandKindName) -> (r: Self) {
        match v {
            BandKindName::Peak => BandKind::Peak,
            BandKindName::LowShelf => BandKind::LowShelf,
            BandKindName::HighShelf => BandKind::HighShelf,
        }
    }
}

impl vstd::std_specs::convert::FromSpecImpl<BandKindName> for BandKind {
    open spec fn obeys_from_spec() -> bool {
        true
    }

    open spec fn from_spec(v: BandKindName) -> Self {
        kind_of(v)
    }
}

/// Note value of the tempo-synchronous delay, mirroring [`DelayNote`]. There is no milliseconds
/// field anywhere: the delay time comes from the engine's timeline.
#[derive(Clone, Copy, Debug, PartialEq, Eq, Structural)]
pub enum DelayNoteName {
    Quarter,
    DottedEighth,
    Eighth,
    TripletEighth,
}

impl Default for DelayNoteName {
    fn default() -> (r: Self)
        ensures
            r == DelayNoteName::DottedEighth,
    {
        DelayNoteName::DottedEighth
    }
}

/// The wire name of a value.
pub open spec fn note_name(v: DelayNote) -> DelayNoteName {
    match v {
        DelayNote::Quarter => DelayNoteName::Quarter,
        DelayNote::DottedEighth => DelayNoteName::DottedEighth,
        DelayNote::Eighth => DelayNoteName::Eighth,
        DelayNote::TripletEighth => DelayNoteName::TripletEighth,
    }
}

impl From<DelayNote> for DelayNoteName {
    fn from(v: DelayNote) -> (r: Self) {
        match v {
            DelayNote::Quarter => DelayNoteName::Quarter,
            DelayNote::DottedEighth => DelayNoteName::DottedEighth,
            DelayNote::Eighth => DelayNoteName::Eighth,
            DelayNote::TripletEighth => DelayNoteName::TripletEighth,
        }
    }
}

impl vstd::std_specs::convert::FromSpecImpl<DelayNote> for DelayNoteName {
    open spec fn obeys_from_spec() -> bool {
        true
    }

    open spec fn from_spec(v: DelayNote) -> Self {
        note_name(v)
    }
}

/// The value behind a wire name.
pub open spec fn note_of(v: DelayNoteName) -> DelayNote {
    match v {
        DelayNoteName::Quarter => DelayNote::Quarter,
        DelayNoteName::DottedEighth => DelayNote::DottedEighth,
        DelayNoteName::Eighth => DelayNote::Eighth,
        DelayNoteName::TripletEighth => DelayNote::TripletEighth,
    }
}

impl From<DelayNoteName> for DelayNote {
    fn from(v: DelayNoteName) -> (r: Self) {
        match v {
            DelayNoteName::Quarter => DelayNote::Quarter,
            DelayNoteName::DottedEighth => DelayNote::DottedEighth,
            DelayNoteName::Eighth => DelayNote::Eighth,
            DelayNoteName::TripletEighth => DelayNote::TripletEighth,
        }
    }
}

impl vstd::std_specs::convert::FromSpecImpl<DelayNoteName> for DelayNote {
    open spec fn obeys_from_spec() -> bool {
        true
    }

    open spec fn from_spec(v: DelayNoteName) -> Self {
        note_of(v)
    }
}

/// Every numeric knob of a chain, by name.
///
/// The band-scoped names additionally take a band. The two knobs that are not numbers, the band
/// kind and the delay note, have their own commands.
#[derive(Clone, Copy, Debug, PartialEq, Eq, Structural)]
pub enum FxParamName {
    HighPassHz,
    BandHz,
    BandQ,
    BandGainDb,
    CompThresholdDb,
    CompRatio,
    CompAttackMs,
    CompReleaseMs,
    CompKneeDb,
    CompMakeupDb,
    DelayFeedback,
    DelayMix,
    ReverbSize,
    ReverbDamping,
    ReverbMix,
}

/// Number of EQ bands.
pub const EQ_BANDS: u32 = 3;

impl FxParamName {
    /// Whether this knob belongs to one EQ band.
    pub open spec fn banded(self) -> bool {
        self is BandHz || self is BandQ || self is BandGainDb
    }

    /// What is wrong with the band given for this knob.
    pub open spec fn band_error(self, band: Option<u32>) -> Option<Seq<char>> {
        if !self.banded() {
            None
        } else {
            match band {
                Some(band) => if band >= EQ_BANDS {
                    Some("Es gibt die EQ-Baender 0 bis 2, nicht "@ + decimal(band as nat) + "."@)
                } else {
                    None
                },
                None => Some(
                    "Dieser Parameter gehoert zu einem EQ-Band; es fehlt die Angabe \"band\" (0, 1 oder 2)."@,
                ),
            }
        }
    }

    /// The knob itself, turned to `v`.
    pub open spec fn knob(self, v: Single, band: Option<u32>) -> FxParam {
        let at = band->0 as usize;
        match self {
            FxParamName::BandHz => FxParam::BandHz { band: at, hz: v },
            FxParamName::BandQ => FxParam::BandQ { band: at, q: v },
            FxParamName::BandGainDb => FxParam::BandGainDb { band: at, db: v },
            FxParamName::HighPassHz => FxParam::HighPassHz(v),
            FxParamName::CompThresholdDb => FxParam::CompThresholdDb(v),
            FxParamName::CompRatio => FxParam::CompRatio(v),
            FxParamName::CompAttackMs => FxParam::CompAttackMs(v),
            FxParamName::CompReleaseMs => FxParam::CompReleaseMs(v),
            FxParamName::CompKneeDb => FxParam::CompKneeDb(v),
            FxParamName::CompMakeupDb => FxParam::CompMakeupDb(v),
            FxParamName::DelayFeedback => FxParam::DelayFeedback(v),
            FxParamName::DelayMix => FxParam::DelayMix(v),
            FxParamName::ReverbSize => FxParam::ReverbSize(v),
            FxParamName::ReverbDamping => FxParam::ReverbDamping(v),
            FxParamName::ReverbMix => FxParam::ReverbMix(v),
        }
    }

    /// Whether this knob belongs to one EQ band, i.e. whether `band` has to be supplied.
    pub fn needs_band(self) -> (r: bool)
        ensures
            r == self.banded(),
    {
        matches!(self, FxParamName::BandHz | FxParamName::BandQ | FxParamName::BandGainDb)
    }

    /// Turn a name plus a value into an engine parameter, or say in German what is missing.
    ///
    /// The engine moves every value into a usable range anyway; what is checked here is only the
    /// shape: a band-scoped knob without a band, or a band that does not exist. A knob that is not
    /// band-scoped ignores a band.
    pub fn to_param(self, v: Single, band: Option<u32>) -> (r: Result<FxParam, String>)
        ensures
            match self.band_error(band) {
                Some(text) => r matches Err(e) && e@ == text,
                None => r matches Ok(param) && param == self.knob(v, band),
            },
    {
        let mut at: usize = 0;
        if self.needs_band() {
            match band {
                Some(band) => {
                    if band >= EQ_BANDS {
                        let mut text = String::new();
                        text.append("Es gibt die EQ-Baender 0 bis 2, nicht ");
                        push_decimal(&mut text, band as u64);
                        text.append(".");
                        assert(text@ =~= self.band_error(Some(band))->0);
                        return Err(text);
                    }
                    at = band as usize;
                },
                None => {
                    return Err(
                        "Dieser Parameter gehoert zu einem EQ-Band; es fehlt die Angabe \"band\" (0, 1 oder 2).".to_owned(),
                    );
                },
            }
        }
        Ok(
            match self {
                FxParamName::BandHz => FxParam::BandHz { band: at, hz: v },
                FxParamName::BandQ => FxParam::BandQ { band: at, q: v },
                FxParamName::BandGainDb => FxParam::BandGainDb { band: at, db: v },
                FxParamName::HighPassHz => FxParam::HighPassHz(v),
                FxParamName::CompThresholdDb => FxParam::CompThresholdDb(v),
                FxParamName::CompRatio => FxParam::CompRatio(v),
                FxParamName::CompAttackMs => FxParam::CompAttackMs(v),
                FxParamName::CompReleaseMs => FxParam::CompReleaseMs(v),
                FxParamName::CompKneeDb => FxParam::CompKneeDb(v),
                FxParamName::CompMakeupDb => FxParam::CompMakeupDb(v),
                FxParamName::DelayFeedback => FxParam::DelayFeedback(v),
                FxParamName::DelayMix => FxParam::DelayMix(v),
                FxParamName::ReverbSize => FxParam::ReverbSize(v),
                FxParamName::ReverbDamping => FxParam::ReverbDamping(v),
                FxParamName::ReverbMix => FxParam::ReverbMix(v),
            },
        )
    }
}

/// What one EQ band does, as a knob. A band that does not exist is refused.
pub fn band_kind_param(band: u32, kind: BandKindName) -> (r: Result<FxParam, String>)
    ensures
        if band < EQ_BANDS {
            r == Ok::<FxParam, String>(
                FxParam::BandKind { band: band as usize, kind: kind_of(kind) },
            )
        } else {
            r matches Err(e) && e@ == "Es gibt die EQ-Baender 0 bis 2, nicht "@ + decimal(
                band as nat,
            ) + "."@
        },
{
    if band >= EQ_BANDS {
        let mut text = String::new();
        text.append("Es gibt die EQ-Baender 0 bis 2, nicht ");
        push_decimal(&mut text, band as u64);
        text.append(".");
        assert(text@ =~= "Es gibt die EQ-Baender 0 bis 2, nicht "@ + decimal(band as nat) + "."@);
        return Err(text);
    }
    Ok(FxParam::BandKind { band: band as usize, kind: BandKind::from(kind) })
}

// ---------------------------------------------------------------------------------------------
// Effects
// ---------------------------------------------------------------------------------------------

#[derive(Clone, Copy, Debug, PartialEq, Eq, Structural)]
pub struct BandEvent {
    /// Zero-based; this is what a knob command expects as `band`.
    pub index: usize,
    /// One-based, for display.
    pub number: u32,
    pub kind: BandKindName,
    pub hz: Single,
    pub q: Single,
    pub gain_db: Single,
}

#[derive(Debug)]
pub struct FxEffectEvent {
    /// Pass this back when switching the effect.
    pub name: FxSlotName,
    /// German word, ready to print.
    pub label: String,
    pub on: bool,
}

/// State of one track's effect chain.
#[derive(Debug)]
pub struct FxEvent {
    /// Whole chain out of the signal path, whatever the rest of these fields say.
    pub bypass: bool,
    pub preset: FxPresetName,
    /// German word for the preset, ready to print.
    pub preset_label: String,
    /// `HEK-R`: one letter per effect that is on, a dash for one that is off, in signal order.
    pub letters: String,
    /// On/off per effect, in signal order, next to the name the commands use.
    pub effects: Vec<FxEffectEvent>,
    pub high_pass_hz: Single,
    pub bands: Vec<BandEvent>,
    pub comp_threshold_db: Single,
    pub comp_ratio: Single,
    pub comp_attack_ms: Single,
    pub comp_release_ms: Single,
    pub comp_knee_db: Single,
    pub comp_makeup_db: Single,
    /// Deepest gain reduction since the last status event, in dB and never positive.
    pub comp_reduction_db: Single,
    pub delay_note: DelayNoteName,
    /// The note value as it is written on paper: `1/4`, `1/8.`, `1/8`, `1/8T`.
    pub delay_note_label: String,
    /// The delay time the note value works out to at the current tempo, in samples.
    pub delay_samples: u64,
    pub delay_feedback: Single,
    pub delay_mix: Single,
    pub reverb_size: Single,
    pub reverb_damping: Single,
    pub reverb_mix: Single,
}

/// Whether an event shows an effect chain.
pub open spec fn chain_shown(fx: FxStatus, r: FxEvent) -> bool {
    let s = fx.settings@;
    &&& r.bypass == fx.bypass
    &&& r.preset == preset_name(fx.preset)
    &&& r.preset_label@ == preset_label(fx.preset)
    &&& r.letters@ == status_letters(s.enabled)
    &&& r.effects@.len() == 5
    &&& forall|i: int|
        0 <= i < 5 ==> {
            let effect = #[trigger] r.effects@[i];
            &&& effect.name == effect_name(slots()[i])
            &&& effect.label@ == slot_label(slots()[i])
            &&& effect.on == s.enabled[i]
        }
    &&& r.high_pass_hz == s.high_pass_hz
    &&& r.bands@.len() == 3
    &&& forall|i: int|
        0 <= i < 3 ==> {
            let band = #[trigger] r.bands@[i];
            &&& band.index == i
            &&& band.number == i + 1
            &&& band.kind == kind_name(s.bands[i].kind)
            &&& band.hz == s.bands[i].hz
            &&& band.q == s.bands[i].q
            &&& band.gain_db == s.bands[i].gain_db
        }
    &&& r.comp_threshold_db == s.comp.threshold_db
    &&& r.comp_ratio == s.comp.ratio
    &&& r.comp_attack_ms == s.comp.attack_ms
    &&& r.comp_release_ms == s.comp.release_ms
    &&& r.comp_knee_db == s.comp.knee_db
    &&& r.comp_makeup_db == s.comp.makeup_db
    &&& r.comp_reduction_db == fx.reduction_db
    &&& r.delay_note == note_name(s.delay_note)
    &&& r.delay_note_label@ == note_label(s.delay_note)
    &&& r.delay_samples == fx.delay_samples
    &&& r.delay_feedback == s.delay_feedback
    &&& r.delay_mix == s.delay_mix
    &&& r.reverb_size == s.reverb_size
    &&& r.reverb_damping == s.reverb_damping
    &&& r.reverb_mix == s.reverb_mix
}

/// Build the effect part of a track's status event.
pub fn fx_event(fx: &FxStatus) -> (r: FxEvent)
    ensures
        chain_shown(*fx, r),
{
    let s = fx.settings;
    let all: [FxSlot; 5] = FxSlot::all();
    let mut effects: Vec<FxEffectEvent> = Vec::new();
    let mut i: usize = 0;
    while i < 5
        invariant
            i <= 5,
            s == fx.settings,
            all@ == slots(),
            effects@.len() == i,
            forall|j: int|
                0 <= j < i ==> {
                    let effect = #[trigger] effects@[j];
                    &&& effect.name == effect_name(slots()[j])
                    &&& effect.label@ == slot_label(slots()[j])
                    &&& effect.on == s@.enabled[j]
                },
        decreases 5 - i,
    {
        let slot: FxSlot = all[i];
        assert(slot == slots()[i as int]);
        effects.push(
            FxEffectEvent {
                name: FxSlotName::from(slot),
                label: slot.label().to_owned(),
                on: s.enabled[i],
            },
        );
        i = i + 1;
    }
    let mut bands: Vec<BandEvent> = Vec::new();
    let mut i: usize = 0;
    while i < 3
        invariant
            i <= 3,
            s == fx.settings,
            bands@.len() == i,
            forall|j: int|
                0 <= j < i ==> {
                    let band = #[trigger] bands@[j];
                    &&& band.index == j
                    &&& band.number == j + 1
                    &&& band.kind == kind_name(s@.bands[j].kind)
                    &&& band.hz == s@.bands[j].hz
                    &&& band.q == s@.bands[j].q
                    &&& band.gain_db == s@.bands[j].gain_db
                },
        decreases 3 - i,
    {
        let b = s.bands[i];
        bands.push(
            BandEvent {
                index: i,
                number: i as u32 + 1,
                kind: BandKindName::from(b.kind),
                hz: b.hz,
                q: b.q,
                gain_db: b.gain_db,
            },
        );
        i = i + 1;
    }
    FxEvent {
        bypass: fx.bypass,
        preset: FxPresetName::from(fx.preset),
        preset_label: fx.preset.label().to_owned(),
        letters: fx.letters(),
        effects,
        high_pass_hz: s.high_pass_hz,
        bands,
        comp_threshold_db: s.comp.threshold_db,
        comp_ratio: s.comp.ratio,
        comp_attack_ms: s.comp.attack_ms,
        comp_release_ms: s.comp.release_ms,
        comp_knee_db: s.comp.knee_db,
        comp_makeup_db: s.comp.makeup_db,
        comp_reduction_db: fx.reduction_db,
        delay_note: DelayNoteName::from(s.delay_note),
        delay_note_label: s.delay_note.label().to_owned(),
        delay_samples: fx.delay_samples,
        delay_feedback: s.delay_feedback,
        delay_mix: s.delay_mix,
        reverb_size: s.reverb_size,
        reverb_damping: s.reverb_damping,
        reverb_mix: s.reverb_mix,
    }
}

// ---------------------------------------------------------------------------------------------
// Status push
// ---------------------------------------------------------------------------------------------

#[derive(Clone, Copy, Debug, PartialEq, Eq, Structural)]
pub struct LayerStatus {
    /// Zero-based; this is what a layer command expects.
    pub index: usize,
    /// One-based, for display.
    pub number: u32,
    pub muted: bool,
    /// 0 to 4. Mirrored on the control side, because the engine's status snapshot does not carry
    /// it: it only ever changes by command, so the mirror cannot go stale.
    pub gain: Single,
}

#[derive(Debug)]
pub struct TrackStatusEvent {
    /// Zero-based; this is what a track command expects.
    pub index: usize,
    pub name: String,
    /// One-based, as printed on the interface. The left one of a stereo pair.
    pub input_channel: u32,
    /// Every input this track records, one-based: one entry when it is mono, two when it is stereo.
    pub input_channels: Vec<u32>,
    /// 1 when this track's loop buffers are mono, 2 when they are stereo.
    pub channels: u32,
    /// German word for that, ready to print: `mono` or `stereo`.
    pub channels_label: String,
    /// Position in the stereo field: -1 hard left, 0 centre, +1 hard right.
    pub pan: Single,
    pub state: TrackStateName,
    /// German word for the state, ready to print.
    pub state_label: String,
    pub monitor: bool,
    pub playing: bool,
    /// Loop length of this track in frames; 0 while nothing is recorded.
    pub loop_samples: u64,
    /// Frames already written during a running loop-defining take.
    pub filled_samples: u64,
    /// Loudest recorded input channel.
    pub input_peak: Single,
    /// One entry per recorded input channel, so a stereo source can be metered per side.
    pub input_peaks: Vec<Single>,
    /// Louder side of what this track's audible layers contributed to the bus.
    pub output_peak: Single,
    /// Left and right, always two entries: the bus is stereo whatever the track records.
    pub output_peaks: Vec<Single>,
    pub layers: Vec<LayerStatus>,
    /// What this track is waiting for, or None when nothing is scheduled.
    pub pending_kind: Option<PendingKindName>,
    /// German word for it, ready to print.
    pub pending_label: Option<String>,
    /// Whole bars still to go before it happens.
    pub pending_bars: u32,
    /// Beats on top of `pending_bars`. Inside the last bar `pending_bars` is 0 and this counts down.
    pub pending_beats: u32,
    /// This track's effect chain.
    pub fx: FxEvent,
}

/// The gain of a layer as the control side knows it: a layer it never touched stands at one.
pub open spec fn mirrored_gain(gains: Seq<Single>, layer: int) -> Single {
    if layer < gains.len() {
        gains[layer]
    } else {
        Single { bits: UNITY }
    }
}

/// The layers of a track, with their gains.
pub fn layer_events(ts: &TrackStatus, gains: &Vec<Single>) -> (r: Vec<LayerStatus>)
    ensures
        r@ == Seq::new(
            ts.layers as nat,
            |i: int|
                LayerStatus {
                    index: i as usize,
                    number: (i + 1) as u32,
                    muted: mask_bit(ts.muted_mask as nat, i as nat),
                    gain: mirrored_gain(gains@, i),
                },
        ),
{
    let mut r: Vec<LayerStatus> = Vec::new();
    let mut i: u8 = 0;
    while i < ts.layers
        invariant
            i <= ts.layers,
            r@.len() == i,
            forall|j: int|
                0 <= j < i ==> #[trigger] r@[j] == (LayerStatus {
                    index: j as usize,
                    number: (j + 1) as u32,
                    muted: mask_bit(ts.muted_mask as nat, j as nat),
                    gain: mirrored_gain(gains@, j),
                }),
        decreases ts.layers - i,
    {
        let at: usize = i as usize;
        r.push(
            LayerStatus {
                index: at,
                number: i as u32 + 1,
                muted: is_muted(ts.muted_mask, at),
                gain: if at < gains.len() {
                    gains[at]
                } else {
                    Single { bits: UNITY }
                },
            },
        );
        i = i + 1;
    }
    r
}

/// What the window is told of one track, where `gains` is the control-side mirror of its layer gains.
pub open spec fn track_told(
    r: TrackStatusEvent,
    index: usize,
    name: Seq<char>,
    ts: TrackStatus,
    gains: Seq<Single>,
    lead: Lead,
) -> bool {
    &&& r.index == index
    &&& r.name@ == name
    &&& r.input_channel == ts.input_channels@[0] + 1
    &&& r.input_channels@ == (if ts.channels >= 2 {
        seq![(ts.input_channels@[0] + 1) as u32, (ts.input_channels@[1] + 1) as u32]
    } else {
        seq![(ts.input_channels@[0] + 1) as u32]
    })
    &&& r.channels == ts.channels
    &&& r.channels_label@ == (if ts.channels >= 2 {
        "stereo"@
    } else {
        "mono"@
    })
    &&& r.pan == ts.pan
    &&& r.state == state_name(ts.state)
    &&& r.state_label@ == state_label(ts.state)
    &&& r.monitor == ts.monitor
    &&& r.playing == ts.playing
    &&& r.loop_samples == ts.loop_len
    &&& r.filled_samples == ts.filled
    &&& r.input_peak == ts.input_peak@[0].larger(ts.input_peak@[1])
    &&& r.input_peaks@ == (if ts.channels >= 2 {
        ts.input_peak@
    } else {
        seq![ts.input_peak@[0]]
    })
    &&& r.output_peak == ts.output_peak@[0].larger(ts.output_peak@[1])
    &&& r.output_peaks@ == ts.output_peak@
    &&& r.layers@ == Seq::new(
        ts.layers as nat,
        |i: int|
            LayerStatus {
                index: i as usize,
                number: (i + 1) as u32,
                muted: mask_bit(ts.muted_mask as nat, i as nat),
                gain: mirrored_gain(gains, i),
            },
    )
    &&& match lead.kind {
        Some(kind) => {
            &&& r.pending_kind == Some(pending_name(kind))
            &&& r.pending_label matches Some(label) && label@ == pending_label(kind)
        },
        None => r.pending_kind is None && r.pending_label is None,
    }
    &&& r.pending_bars == lead.bars
    &&& r.pending_beats == lead.beats
    &&& chain_shown(ts.fx, r.fx)
}

/// Build the per-track part of a status event from the engine snapshot plus the control-side mirror
/// (name, layer gains).
pub fn track_event(
    index: usize,
    name: &str,
    ts: &TrackStatus,
    gains: &Vec<Single>,
    lead: Lead,
) -> (r: TrackStatusEvent)
    ensures
        track_told(r, index, name@, *ts, gains@, lead),
{
    let mut inputs: Vec<u32> = Vec::new();
    inputs.push(ts.input_channels[0] as u32 + 1);
    let mut input_peaks: Vec<Single> = Vec::new();
    input_peaks.push(ts.input_peak[0]);
    if ts.channels >= 2 {
        inputs.push(ts.input_channels[1] as u32 + 1);
        input_peaks.push(ts.input_peak[1]);
    }
    let mut output_peaks: Vec<Single> = Vec::new();
    output_peaks.push(ts.output_peak[0]);
    output_peaks.push(ts.output_peak[1]);
    assert(inputs@ =~= (if ts.channels >= 2 {
        seq![(ts.input_channels@[0] + 1) as u32, (ts.input_channels@[1] + 1) as u32]
    } else {
        seq![(ts.input_channels@[0] + 1) as u32]
    }));
    assert(input_peaks@ =~= (if ts.channels >= 2 {
        ts.input_peak@
    } else {
        seq![ts.input_peak@[0]]
    }));
    assert(output_peaks@ =~= ts.output_peak@);
    let (kind, label): (Option<PendingKindName>, Option<String>) = match lead.kind {
        Some(kind) => (Some(PendingKindName::from(kind)), Some(kind.label().to_owned())),
        None => (None, None),
    };
    TrackStatusEvent {
        index,
        name: name.to_owned(),
        input_channel: ts.input_channels[0] as u32 + 1,
        input_channels: inputs,
        channels: ts.channels as u32,
        channels_label: if ts.channels >= 2 {
            "stereo".to_owned()
        } else {
            "mono".to_owned()
        },
        pan: ts.pan,
        state: TrackStateName::from(ts.state),
        state_label: ts.state.label().to_owned(),
        monitor: ts.monitor,
        playing: ts.playing,
        loop_samples: ts.loop_len,
        filled_samples: ts.filled,
        input_peak: ts.input_peak_max(),
        input_peaks,
        output_peak: ts.output_peak_max(),
        output_peaks,
        layers: layer_events(ts, gains),
        pending_kind: kind,
        pending_label: label,
        pending_bars: lead.bars,
        pending_beats: lead.beats,
        fx: fx_event(&ts.fx),
    }
}

/// Pushed to the window about twenty times a second while the engine runs, plus once with `running`
/// false after it stops.
#[derive(Debug)]
pub struct StatusEvent {
    pub running: bool,
    /// Absolute sample position on the engine's output timeline.
    pub pos: u64,
    /// One-based bar, as counted in music.
    pub bar: u64,
    /// One-based beat inside the bar.
    pub beat: u32,
    /// Samples elapsed inside the current beat.
    pub beat_offset: u64,
    pub bpm: Bpm,
    pub beats_per_bar: u32,
    pub beat_unit: u32,
    /// Configured loop length in bars.
    pub bars: u32,
    /// The same in samples, at the current tempo.
    pub loop_samples: u64,
    /// Grid a recording and an overdub currently snap to.
    pub quantize: QuantizeName,
    pub sample_rate: u32,
    pub latency_samples: u64,
    pub click: bool,
    /// Louder side of the produced output block.
    pub output_peak: Single,
    /// Left and right of the master bus, always two entries. The engine meters the louder side, so
    /// both show it.
    pub output_peaks: Vec<Single>,
    pub tracks: Vec<TrackStatusEvent>,
    /// Buffer underruns the driver reported. Anything but 0 means the audio was interrupted.
    pub xruns: u64,
    /// Output callbacks that found the input queue short. Costs a little delay, no alignment.
    pub fifo_underruns: u64,
    /// Input callbacks that could not push. Input samples were lost and every later recording is
    /// permanently shifted.
    pub fifo_overruns: u64,
    /// Stream errors that were not underruns.
    pub other_errors: u64,
    /// Commands the engine refused, in total.
    pub ignored_commands: u64,
    /// Prepared layer buffers the engine is currently holding ready.
    pub spares: u32,
    /// The newest German sentence about what happened. None when there is nothing to say.
    pub message: Option<String>,
}

impl StatusEvent {
    /// The event that says "nothing is running".
    pub fn idle() -> (r: Self)
        ensures
            !r.running,
            r.pos == 0,
            r.bar == 1,
            r.beat == 1,
            r.beat_offset == 0,
            r.bpm == (Bpm { bits: 0 }),
            r.beats_per_bar == 0,
            r.beat_unit == 0,
            r.bars == 0,
            r.loop_samples == 0,
            r.quantize == QuantizeName::Loop,
            r.sample_rate == 0,
            r.latency_samples == 0,
            !r.click,
            r.output_peak == (Single { bits: 0 }),
            r.output_peaks@ == seq![Single { bits: 0 }, Single { bits: 0 }],
            r.tracks@ == Seq::<TrackStatusEvent>::empty(),
            r.xruns == 0,
            r.fifo_underruns == 0,
            r.fifo_overruns == 0,
            r.other_errors == 0,
            r.ignored_commands == 0,
            r.spares == 0,
            r.message is None,
    {
        let output_peaks: Vec<Single> = vec![Single { bits: 0 }, Single { bits: 0 }];
        assert(output_peaks@ =~= seq![Single { bits: 0 }, Single { bits: 0 }]);
        StatusEvent {
            running: false,
            pos: 0,
            bar: 1,
            beat: 1,
            beat_offset: 0,
            bpm: Bpm { bits: 0 },
            beats_per_bar: 0,
            beat_unit: 0,
            bars: 0,
            loop_samples: 0,
            quantize: QuantizeName::default(),
            sample_rate: 0,
            latency_samples: 0,
            click: false,
            output_peak: Single { bits: 0 },
            output_peaks,
            tracks: Vec::new(),
            xruns: 0,
            fifo_underruns: 0,
            fifo_overruns: 0,
            other_errors: 0,
            ignored_commands: 0,
            spares: 0,
            message: None,
        }
    }
}

// ---------------------------------------------------------------------------------------------
// Laws
// ---------------------------------------------------------------------------------------------

/// Every name leads back to the value it stands for, and every value to its name.
pub proof fn names_lead_back(
    grid: Quantize,
    slot: FxSlot,
    preset: FxPreset,
    kind: BandKind,
    note: DelayNote,
)
    ensures
        grid_of(grid_name(grid)) == grid,
        effect_of(effect_name(slot)) == slot,
        preset_of(preset_name(preset)) == preset,
        kind_of(kind_name(kind)) == kind,
        note_of(note_name(note)) == note,
{
}

/// Every value leads back to its name.
pub proof fn values_lead_back(
    grid: QuantizeName,
    slot: FxSlotName,
    preset: FxPresetName,
    kind: BandKindName,
    note: DelayNoteName,
)
    ensures
        grid_name(grid_of(grid)) == grid,
        effect_name(effect_of(slot)) == slot,
        preset_name(preset_of(preset)) == preset,
        kind_name(kind_of(kind)) == kind,
        note_name(note_of(note)) == note,
{
}

/// No two states and no two waiting kinds share a name.
pub proof fn names_tell_values_apart(a: TrackState, b: TrackState, c: PendingKind, d: PendingKind)
    ensures
        state_name(a) == state_name(b) ==> a == b,
        pending_name(c) == pending_name(d) ==> c == d,
{
}

/// A knob that is not band-scoped ignores a band rather than refusing it.
pub proof fn a_band_is_only_asked_of_band_knobs(name: FxParamName, band: Option<u32>)
    requires
        !name.banded(),
    ensures
        name.band_error(band) is None,
{
}

/// Every name on the wire is the word for the thing it stands for.
pub proof fn names_are_the_words_for_their_things(
    state: TrackState,
    slot: FxSlot,
    preset: FxPreset,
    kind: BandKind,
    note: DelayNote,
    grid: Quantize,
    pending: PendingKind,
)
    ensures
        state_name(state) is Empty <==> state == TrackState::Empty,
        state_name(state) is Armed <==> state == TrackState::Armed,
        state_name(state) is Recording <==> state == TrackState::Recording,
        state_name(state) is Overdub <==> state == TrackState::Overdub,
        state_name(state) is Ready <==> state == TrackState::Ready,
        state_name(state) is Playing <==> state == TrackState::Playing,
        effect_name(slot) is HighPass <==> slot == FxSlot::HighPass,
        effect_name(slot) is Eq <==> slot == FxSlot::Eq,
        effect_name(slot) is Comp <==> slot == FxSlot::Comp,
        effect_name(slot) is Delay <==> slot == FxSlot::Delay,
        effect_name(slot) is Reverb <==> slot == FxSlot::Reverb,
        preset_name(preset) is Dry <==> preset == FxPreset::Dry,
        preset_name(preset) is Voice <==> preset == FxPreset::Voice,
        preset_name(preset) is PiezoGuitar <==> preset == FxPreset::PiezoGuitar,
        preset_name(preset) is Custom <==> preset == FxPreset::Custom,
        kind_name(kind) is Peak <==> kind == BandKind::Peak,
        kind_name(kind) is LowShelf <==> kind == BandKind::LowShelf,
        kind_name(kind) is HighShelf <==> kind == BandKind::HighShelf,
        note_name(note) is Quarter <==> note == DelayNote::Quarter,
        note_name(note) is DottedEighth <==> note == DelayNote::DottedEighth,
        note_name(note) is Eighth <==> note == DelayNote::Eighth,
        note_name(note) is TripletEighth <==> note == DelayNote::TripletEighth,
        grid_name(grid) is Bar <==> grid == Quantize::Bar,
        grid_name(grid) is Loop <==> grid == Quantize::Loop,
        pending_name(pending) is Record <==> pending == PendingKind::Record,
        pending_name(pending) is Overdub <==> pending == PendingKind::Overdub,
        pending_name(pending) is Play <==> pending == PendingKind::Play,
        pending_name(pending) is Stop <==> pending == PendingKind::Stop,
{
}

/// A knob that is named turns that knob and no other, on the band that is named where it belongs to
/// one, and a missing band or one beyond the third is refused exactly there.
pub proof fn a_named_knob_turns_that_knob(name: FxParamName, v: Single, at: u32, knobs: Knobs)
    requires
        knobs.shaped(),
        at < 3,
    ensures
        ({
            let after = turned(knobs, name.knob(v, Some(at)));
            &&& name is HighPassHz ==> after == (Knobs { high_pass_hz: after.high_pass_hz, ..knobs })
            &&& name is BandHz ==> after.bands[at as int] == (BandSettings {
                hz: after.bands[at as int].hz,
                ..knobs.bands[at as int]
            }) && after.bands[at as int].hz == in_hz_range(v)
            &&& name is BandQ ==> after.bands[at as int] == (BandSettings {
                q: after.bands[at as int].q,
                ..knobs.bands[at as int]
            }) && after.bands[at as int].q == in_q_range(v)
            &&& name is BandGainDb ==> after.bands[at as int] == (BandSettings {
                gain_db: after.bands[at as int].gain_db,
                ..knobs.bands[at as int]
            }) && after.bands[at as int].gain_db == in_gain_range(v)
            &&& name is HighPassHz ==> after.high_pass_hz == in_high_pass_range(v)
            &&& name is DelayFeedback ==> after.delay_feedback == in_feedback_range(v)
            &&& name is DelayMix ==> after.delay_mix == in_share_range(v)
            &&& name is ReverbSize ==> after.reverb_size == in_share_range(v)
            &&& name is ReverbDamping ==> after.reverb_damping == in_share_range(v)
            &&& name is ReverbMix ==> after.reverb_mix == in_share_range(v)
            &&& name is CompThresholdDb ==> after.comp.threshold_db == v.clamped(
                Single { bits: 0xc270_0000 },
                Single { bits: 0 },
            )
            &&& name is CompRatio ==> after.comp.ratio == v.clamped(
                Single { bits: 0x3f80_0000 },
                Single { bits: 0x41a0_0000 },
            )
            &&& name is CompAttackMs ==> after.comp.attack_ms == v.clamped(
                Single { bits: 0x3dcc_cccd },
                Single { bits: 0x4348_0000 },
            )
            &&& name is CompReleaseMs ==> after.comp.release_ms == v.clamped(
                Single { bits: 0x40a0_0000 },
                Single { bits: 0x44fa_0000 },
            )
            &&& name is CompKneeDb ==> after.comp.knee_db == v.clamped(
                Single { bits: 0 },
                Single { bits: 0x41c0_0000 },
            )
            &&& name is CompMakeupDb ==> after.comp.makeup_db == in_gain_range(v)
            &&& name.band_error(Some(at)) is None
            &&& name.band_error(None) is Some <==> name is BandHz || name is BandQ
                || name is BandGainDb
        }),
{
}

/// What the window is told of a track is what the snapshot shows of it: the same switches and
/// meters, one entry for each layer with its own mute and its own gain, and inputs counted from one.
pub proof fn a_track_is_told_as_it_is_shown(
    r: TrackStatusEvent,
    index: usize,
    name: Seq<char>,
    ts: TrackStatus,
    gains: Seq<Single>,
    lead: Lead,
    layer: int,
)
    requires
        track_told(r, index, name, ts, gains, lead),
        0 <= layer < ts.layers,
    ensures
        r.index == index,
        r.name@ == name,
        r.layers@.len() == ts.layers,
        r.layers@[layer].index == layer,
        r.layers@[layer].number == layer + 1,
        r.layers@[layer].muted == mask_bit(ts.muted_mask as nat, layer as nat),
        layer < gains.len() ==> r.layers@[layer].gain == gains[layer],
        layer >= gains.len() ==> r.layers@[layer].gain.bits == 0x3f80_0000,
        r.input_channel == ts.input_channels@[0] + 1,
        r.monitor == ts.monitor,
        r.playing == ts.playing,
        r.pan == ts.pan,
        r.loop_samples == ts.loop_len,
        r.filled_samples == ts.filled,
        r.state == state_name(ts.state),
        r.fx.bypass == ts.fx.bypass,
        r.pending_kind is Some <==> lead.kind is Some,
        !ts.output_peak@[0].nan() && !ts.output_peak@[1].nan() ==> ts.output_peak@[0].le(
            r.output_peak,
        ) && ts.output_peak@[1].le(r.output_peak),
{
}

/// A chain is told knob by knob as it is set: each band under its own number, each effect with its
/// own switch.
pub proof fn a_chain_is_told_as_it_is_set(fx: FxStatus, r: FxEvent, band: int, slot: int)
    requires
        chain_shown(fx, r),
        0 <= band < 3,
        0 <= slot < 5,
    ensures
        ({
            let s = fx.settings@;
            &&& r.bypass == fx.bypass
            &&& r.preset == preset_name(fx.preset)
            &&& r.effects@[slot].name == effect_name(slots()[slot])
            &&& r.effects@[slot].on == s.enabled[slot]
            &&& r.high_pass_hz == s.high_pass_hz
            &&& r.bands@[band].number == band + 1
            &&& r.bands@[band].kind == kind_name(s.bands[band].kind)
            &&& r.bands@[band].hz == s.bands[band].hz
            &&& r.bands@[band].q == s.bands[band].q
            &&& r.bands@[band].gain_db == s.bands[band].gain_db
            &&& r.comp_threshold_db == s.comp.threshold_db
            &&& r.comp_ratio == s.comp.ratio
            &&& r.comp_attack_ms == s.comp.attack_ms
            &&& r.comp_release_ms == s.comp.release_ms
            &&& r.comp_knee_db == s.comp.knee_db
            &&& r.comp_makeup_db == s.comp.makeup_db
            &&& r.comp_reduction_db == fx.reduction_db
            &&& r.delay_note == note_name(s.delay_note)
            &&& r.delay_samples == fx.delay_samples
            &&& r.delay_feedback == s.delay_feedback
            &&& r.delay_mix == s.delay_mix
            &&& r.reverb_size == s.reverb_size
            &&& r.reverb_damping == s.reverb_damping
            &&& r.reverb_mix == s.reverb_mix
        }),
{
    let e = r.effects@[slot];
    let b = r.bands@[band];
}

} // verus!
