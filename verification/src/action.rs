//! What a musician can ask of a running engine, from the screen and from a controller.
//!
//! While a score plays, the score owns the transport and the human owns the mix. A take that was
//! not scheduled by the score would make its predicted loop geometry wrong from that moment on;
//! panning, gains, mutes, the effect chains and the click change nothing about where a take sits,
//! so they stay available. The line between the two runs through [`Action::moves_transport`].
use vstd::prelude::*;
use crate::bus::{Bus, BusOutput, BusSend, TrackSource};
use crate::command::TrackLatency;
use crate::fx::{FxParam, FxPreset, FxSlot};
use crate::midi::MidiAction;
use crate::schedule::Quantize;
use crate::single::Single;
use crate::timeline::{Bpm, TimeSignature};

verus! {

/// One user action on a running engine. Everything that needs a musical timestamp gets it from the
/// scheduler, not from the caller.
#[derive(Clone, Copy, Debug, PartialEq, Eq, Structural)]
pub enum Action {
    Record { track: usize },
    Overdub { track: usize },
    StopTrack { track: usize },
    Play { track: usize },
    ClearTrack { track: usize },
    SetMonitor { track: usize, on: bool },
    /// Where a track sits between the speakers: -1 hard left, 0 centre, +1 hard right.
    SetPan { track: usize, pan: Single },
    /// Which output buses one source of a track (its loop or its monitored input) is heard on.
    SetTrackSend { track: usize, source: TrackSource, send: BusSend },
    /// One bus of that set on or off. The set it belongs to is read from the newest snapshot before
    /// the switch is written back, so switching a track off Main cannot take it off the headphones
    /// as well.
    SetTrackBus { track: usize, source: TrackSource, bus: Bus, on: bool },
    /// Volume of one output bus, linear.
    SetBusGain { bus: Bus, gain: Single },
    /// Which device output channels one bus leaves on.
    SetBusOutput { bus: Bus, out: BusOutput },
    /// What this track subtracts while recording, in frames. Takes effect for input arriving from
    /// now on; nothing already in a layer buffer moves.
    SetTrackLatency { track: usize, latency: TrackLatency },
    LayerMute { track: usize, layer: usize, muted: bool },
    LayerRemove { track: usize, layer: usize },
    LayerGain { track: usize, layer: usize, gain: Single },
    ClearAll,
    SetClick { on: bool },
    SetTempo { bpm: Bpm, beats_per_bar: u32, beat_unit: u32 },
    /// Switch the grid a take snaps to while the engine runs. Takes that are already armed keep the
    /// position they were given.
    SetQuantize { quantize: Quantize },
    /// Whole chain of one track out of the signal path or back in.
    FxBypass { track: usize, on: bool },
    /// One effect of one track's chain.
    FxEnable { track: usize, slot: FxSlot, on: bool },
    /// One knob.
    FxParam { track: usize, param: FxParam },
    /// Load a ready-made chain.
    FxPreset { track: usize, preset: FxPreset },
}

/// One press of the score transport. Each of these answers with a sentence rather than with success
/// or failure.
#[derive(Clone, Copy, Debug, PartialEq, Eq, Structural)]
pub enum ScoreAction {
    /// Count-in, then the first section.
    Start,
    /// The release button: arm the change to the next section.
    Next,
    /// Jump to a section instead of taking the next one. Zero-based.
    Goto(usize),
    /// Stop every track and end the run.
    StopAll,
}

impl Action {
    /// The actions that move a take or the grid it sits on.
    pub open spec fn shifts_takes(self) -> bool {
        self is Record || self is Overdub || self is StopTrack || self is Play || self is ClearTrack
            || self is ClearAll || self is SetTempo || self is SetQuantize
    }

    /// The track this action addresses, if it addresses one.
    pub open spec fn target(self) -> Option<usize> {
        match self {
            Action::Record { track } => Some(track),
            Action::Overdub { track } => Some(track),
            Action::StopTrack { track } => Some(track),
            Action::Play { track } => Some(track),
            Action::ClearTrack { track } => Some(track),
            Action::SetMonitor { track, .. } => Some(track),
            Action::SetPan { track, .. } => Some(track),
            Action::SetTrackSend { track, .. } => Some(track),
            Action::SetTrackBus { track, .. } => Some(track),
            Action::SetTrackLatency { track, .. } => Some(track),
            Action::LayerMute { track, .. } => Some(track),
            Action::LayerRemove { track, .. } => Some(track),
            Action::LayerGain { track, .. } => Some(track),
            Action::FxBypass { track, .. } => Some(track),
            Action::FxEnable { track, .. } => Some(track),
            Action::FxParam { track, .. } => Some(track),
            Action::FxPreset { track, .. } => Some(track),
            Action::ClearAll => None,
            Action::SetClick { .. } => None,
            Action::SetBusGain { .. } => None,
            Action::SetBusOutput { .. } => None,
            Action::SetTempo { .. } => None,
            Action::SetQuantize { .. } => None,
        }
    }

    /// Whether this action moves the transport of a track, which is the score's business while one
    /// is playing.
    pub fn moves_transport(&self) -> (r: bool)
        ensures
            r == self.shifts_takes(),
    {
        matches!(
            *self,
            Action::Record { .. } | Action::Overdub { .. } | Action::StopTrack { .. }
            | Action::Play { .. } | Action::ClearTrack { .. } | Action::ClearAll
            | Action::SetTempo { .. } | Action::SetQuantize { .. }
        )
    }

    /// The track this action addresses, if it addresses one.
    pub fn track(&self) -> (r: Option<usize>)
        ensures
            r == self.target(),
    {
        match *self {
            Action::Record { track } | Action::Overdub { track } | Action::StopTrack { track }
            | Action::Play { track } | Action::ClearTrack { track } | Action::SetMonitor {
                track,
                ..
            } | Action::SetPan { track, .. } | Action::SetTrackSend { track, .. }
            | Action::SetTrackBus { track, .. } | Action::SetTrackLatency { track, .. }
            | Action::LayerMute { track, .. } | Action::LayerRemove { track, .. }
            | Action::LayerGain { track, .. } | Action::FxBypass { track, .. }
            | Action::FxEnable { track, .. } | Action::FxParam { track, .. } | Action::FxPreset {
                track,
                ..
            } => Some(track),
            Action::ClearAll | Action::SetClick { .. } | Action::SetBusGain { .. }
            | Action::SetBusOutput { .. } | Action::SetTempo { .. } | Action::SetQuantize {
                ..
            } => None,
        }
    }
}

/// One resolved MIDI intent, on the way to the same two doors a mouse click uses: everything that
/// changes the mix or the transport of a track is an [`Action`], the score's own transport is a
/// [`ScoreAction`].
#[derive(Clone, Copy, Debug, PartialEq, Eq, Structural)]
pub enum MidiIntent {
    Session(Action),
    Score(ScoreAction),
}

/// What a resolved MIDI action means on the screen.
///
/// * `Tempo` sets the tempo and leaves the time signature alone: a knob has one dimension.
/// * `LatencyTrim` is the manual surcharge only. The measured half is passed straight back in, so
///   turning the trim knob can never wipe out a measurement.
pub open spec fn clicked(
    action: MidiAction,
    signature: TimeSignature,
    measured: Option<u32>,
) -> MidiIntent {
    match action {
        MidiAction::ScoreStart => MidiIntent::Score(ScoreAction::Start),
        MidiAction::ScoreNext => MidiIntent::Score(ScoreAction::Next),
        MidiAction::ScoreStopAll => MidiIntent::Score(ScoreAction::StopAll),
        MidiAction::ScoreGoto(section) => MidiIntent::Score(ScoreAction::Goto(section)),
        MidiAction::Click(on) => MidiIntent::Session(Action::SetClick { on }),
        MidiAction::ClearAll => MidiIntent::Session(Action::ClearAll),
        MidiAction::Tempo(bpm) => MidiIntent::Session(
            Action::SetTempo {
                bpm,
                beats_per_bar: signature.beats_per_bar,
                beat_unit: signature.beat_unit,
            },
        ),
        MidiAction::SetQuantize(quantize) => MidiIntent::Session(Action::SetQuantize { quantize }),
        MidiAction::Record { track } => MidiIntent::Session(Action::Record { track }),
        MidiAction::Overdub { track } => MidiIntent::Session(Action::Overdub { track }),
        MidiAction::Play { track } => MidiIntent::Session(Action::Play { track }),
        MidiAction::StopTrack { track } => MidiIntent::Session(Action::StopTrack { track }),
        MidiAction::ClearTrack { track } => MidiIntent::Session(Action::ClearTrack { track }),
        MidiAction::Monitor { track, on } => MidiIntent::Session(
            Action::SetMonitor { track, on },
        ),
        MidiAction::Pan { track, pan } => MidiIntent::Session(Action::SetPan { track, pan }),
        MidiAction::Send { track, source, send } => MidiIntent::Session(
            Action::SetTrackSend { track, source, send },
        ),
        MidiAction::BusGain { bus, gain } => MidiIntent::Session(Action::SetBusGain { bus, gain }),
        MidiAction::LatencyTrim { track, trim } => MidiIntent::Session(
            Action::SetTrackLatency { track, latency: TrackLatency { measured, trim } },
        ),
        MidiAction::LayerMute { track, layer, muted } => MidiIntent::Session(
            Action::LayerMute { track, layer, muted },
        ),
        MidiAction::LayerRemove { track, layer } => MidiIntent::Session(
            Action::LayerRemove { track, layer },
        ),
        MidiAction::LayerGain { track, layer, gain } => MidiIntent::Session(
            Action::LayerGain { track, layer, gain },
        ),
        MidiAction::FxBypass { track, on } => MidiIntent::Session(Action::FxBypass { track, on }),
        MidiAction::FxEnable { track, slot, on } => MidiIntent::Session(
            Action::FxEnable { track, slot, on },
        ),
        MidiAction::FxPreset { track, preset } => MidiIntent::Session(
            Action::FxPreset { track, preset },
        ),
        MidiAction::FxParam { track, param } => MidiIntent::Session(
            Action::FxParam { track, param },
        ),
    }
}

/// A resolved MIDI action as the action a click produces. `measured` is the measured half of the
/// compensation of the track it addresses.
pub fn intent_of(action: MidiAction, signature: TimeSignature, measured: Option<u32>) -> (r:
    MidiIntent)
    ensures
        r == clicked(action, signature, measured),
{
    match action {
        MidiAction::ScoreStart => MidiIntent::Score(ScoreAction::Start),
        MidiAction::ScoreNext => MidiIntent::Score(ScoreAction::Next),
        MidiAction::ScoreStopAll => MidiIntent::Score(ScoreAction::StopAll),
        MidiAction::ScoreGoto(section) => MidiIntent::Score(ScoreAction::Goto(section)),
        MidiAction::Click(on) => MidiIntent::Session(Action::SetClick { on }),
        MidiAction::ClearAll => MidiIntent::Session(Action::ClearAll),
        MidiAction::Tempo(bpm) => MidiIntent::Session(
            Action::SetTempo {
                bpm,
                beats_per_bar: signature.beats_per_bar,
                beat_unit: signature.beat_unit,
            },
        ),
        MidiAction::SetQuantize(quantize) => MidiIntent::Session(Action::SetQuantize { quantize }),
        MidiAction::Record { track } => MidiIntent::Session(Action::Record { track }),
        MidiAction::Overdub { track } => MidiIntent::Session(Action::Overdub { track }),
        MidiAction::Play { track } => MidiIntent::Session(Action::Play { track }),
        MidiAction::StopTrack { track } => MidiIntent::Session(Action::StopTrack { track }),
        MidiAction::ClearTrack { track } => MidiIntent::Session(Action::ClearTrack { track }),
        MidiAction::Monitor { track, on } => MidiIntent::Session(
            Action::SetMonitor { track, on },
        ),
        MidiAction::Pan { track, pan } => MidiIntent::Session(Action::SetPan { track, pan }),
        MidiAction::Send { track, source, send } => MidiIntent::Session(
            Action::SetTrackSend { track, source, send },
        ),
        MidiAction::BusGain { bus, gain } => MidiIntent::Session(Action::SetBusGain { bus, gain }),
        MidiAction::LatencyTrim { track, trim } => MidiIntent::Session(
            Action::SetTrackLatency { track, latency: TrackLatency { measured, trim } },
        ),
        MidiAction::LayerMute { track, layer, muted } => MidiIntent::Session(
            Action::LayerMute { track, layer, muted },
        ),
        MidiAction::LayerRemove { track, layer } => MidiIntent::Session(
            Action::LayerRemove { track, layer },
        ),
        MidiAction::LayerGain { track, layer, gain } => MidiIntent::Session(
            Action::LayerGain { track, layer, gain },
        ),
        MidiAction::FxBypass { track, on } => MidiIntent::Session(Action::FxBypass { track, on }),
        MidiAction::FxEnable { track, slot, on } => MidiIntent::Session(
            Action::FxEnable { track, slot, on },
        ),
        MidiAction::FxPreset { track, preset } => MidiIntent::Session(
            Action::FxPreset { track, preset },
        ),
        MidiAction::FxParam { track, param } => MidiIntent::Session(
            Action::FxParam { track, param },
        ),
    }
}

// ---------------------------------------------------------------------------------------------
// Laws
// ---------------------------------------------------------------------------------------------

/// The transport boundary survives the translation: a MIDI action moves the transport exactly where
/// the action it becomes does. The score's own transport is outside the rule.
pub proof fn a_pad_hits_the_boundary_of_a_click(
    action: MidiAction,
    signature: TimeSignature,
    measured: Option<u32>,
)
    ensures
        clicked(action, signature, measured) matches MidiIntent::Session(what)
            ==> what.shifts_takes() == action.shifts_takes(),
        clicked(action, signature, measured) is Score ==> !action.shifts_takes(),
{
}

/// A knob on the surcharge keeps the measurement, whatever it is.
pub proof fn a_trim_keeps_the_measurement(
    track: usize,
    trim: i32,
    signature: TimeSignature,
    measured: Option<u32>,
)
    ensures
        clicked(MidiAction::LatencyTrim { track, trim }, signature, measured)
            == MidiIntent::Session(
            Action::SetTrackLatency { track, latency: TrackLatency { measured, trim } },
        ),
{
}

/// Two pads that mean different things are different clicks, whatever else they have in common.
pub proof fn different_pads_are_different_clicks(
    a: MidiAction,
    b: MidiAction,
    signature: TimeSignature,
    measured: Option<u32>,
)
    requires
        a != b,
    ensures
        clicked(a, signature, measured) != clicked(b, signature, measured),
{
}

/// A pad on the transport of a track is the click of the same name on the same track: it records
/// where it says so, and lays a further layer, plays, stops or clears where it says that.
pub proof fn a_pad_keeps_its_kind(
    action: MidiAction,
    track: usize,
    signature: TimeSignature,
    measured: Option<u32>,
)
    ensures
        ({
            let meant = clicked(action, signature, measured);
            &&& (meant == MidiIntent::Session(Action::Record { track }) <==> action
                == MidiAction::Record { track })
            &&& (meant == MidiIntent::Session(Action::Overdub { track }) <==> action
                == MidiAction::Overdub { track })
            &&& (meant == MidiIntent::Session(Action::Play { track }) <==> action
                == MidiAction::Play { track })
            &&& (meant == MidiIntent::Session(Action::StopTrack { track }) <==> action
                == MidiAction::StopTrack { track })
            &&& (meant == MidiIntent::Session(Action::ClearTrack { track }) <==> action
                == MidiAction::ClearTrack { track })
            &&& (meant == MidiIntent::Session(Action::ClearAll) <==> action
                == MidiAction::ClearAll)
            &&& (meant == MidiIntent::Score(ScoreAction::Start) <==> action
                == MidiAction::ScoreStart)
            &&& (meant == MidiIntent::Score(ScoreAction::Next) <==> action
                == MidiAction::ScoreNext)
            &&& (meant == MidiIntent::Score(ScoreAction::StopAll) <==> action
                == MidiAction::ScoreStopAll)
            &&& (meant == MidiIntent::Score(ScoreAction::Goto(track)) <==> action
                == MidiAction::ScoreGoto(track))
        }),
{
}

/// A control on the mix of a track sets what it names on that track, to the value it has.
pub proof fn a_control_sets_what_it_names(
    track: usize,
    layer: usize,
    on: bool,
    value: Single,
    source: TrackSource,
    send: BusSend,
    bus: Bus,
    signature: TimeSignature,
    measured: Option<u32>,
)
    ensures
        clicked(MidiAction::Monitor { track, on }, signature, measured) == MidiIntent::Session(
            Action::SetMonitor { track, on },
        ),
        clicked(MidiAction::Pan { track, pan: value }, signature, measured) == MidiIntent::Session(
            Action::SetPan { track, pan: value },
        ),
        clicked(MidiAction::Send { track, source, send }, signature, measured)
            == MidiIntent::Session(Action::SetTrackSend { track, source, send }),
        clicked(MidiAction::BusGain { bus, gain: value }, signature, measured)
            == MidiIntent::Session(Action::SetBusGain { bus, gain: value }),
        clicked(MidiAction::LayerMute { track, layer, muted: on }, signature, measured)
            == MidiIntent::Session(Action::LayerMute { track, layer, muted: on }),
        clicked(MidiAction::LayerRemove { track, layer }, signature, measured)
            == MidiIntent::Session(Action::LayerRemove { track, layer }),
        clicked(MidiAction::LayerGain { track, layer, gain: value }, signature, measured)
            == MidiIntent::Session(Action::LayerGain { track, layer, gain: value }),
        clicked(MidiAction::Click(on), signature, measured) == MidiIntent::Session(
            Action::SetClick { on },
        ),
{
}

/// A control on the effects of a track reaches the chain of that track with what it names.
pub proof fn a_control_reaches_the_chain(
    track: usize,
    slot: FxSlot,
    on: bool,
    param: FxParam,
    preset: FxPreset,
    signature: TimeSignature,
    measured: Option<u32>,
)
    ensures
        clicked(MidiAction::FxBypass { track, on }, signature, measured) == MidiIntent::Session(
            Action::FxBypass { track, on },
        ),
        clicked(MidiAction::FxEnable { track, slot, on }, signature, measured)
            == MidiIntent::Session(Action::FxEnable { track, slot, on }),
        clicked(MidiAction::FxParam { track, param }, signature, measured) == MidiIntent::Session(
            Action::FxParam { track, param },
        ),
        clicked(MidiAction::FxPreset { track, preset }, signature, measured)
            == MidiIntent::Session(Action::FxPreset { track, preset }),
{
}

/// A tempo knob sets the tempo and keeps the metre, and a switch of the grid sets the grid.
pub proof fn a_tempo_knob_keeps_the_metre(
    bpm: Bpm,
    quantize: Quantize,
    signature: TimeSignature,
    measured: Option<u32>,
)
    ensures
        clicked(MidiAction::Tempo(bpm), signature, measured) matches MidiIntent::Session(what)
            && what matches Action::SetTempo { bpm: set, beats_per_bar, beat_unit } && set == bpm
            && beats_per_bar == signature.beats_per_bar && beat_unit == signature.beat_unit,
        clicked(MidiAction::SetQuantize(quantize), signature, measured) == MidiIntent::Session(
            Action::SetQuantize { quantize },
        ),
{
}

/// What moves a take or its grid: recording, laying a layer, stopping, playing, clearing, and the
/// tempo and the grid. What only changes the mix does not.
pub proof fn the_mix_moves_no_take(action: Action)
    ensures
        action.shifts_takes() ==> !(action is SetMonitor) && !(action is SetPan)
            && !(action is SetTrackSend) && !(action is SetTrackBus) && !(action is SetBusGain)
            && !(action is SetBusOutput) && !(action is SetTrackLatency) && !(action is LayerMute)
            && !(action is LayerRemove) && !(action is LayerGain) && !(action is SetClick)
            && !(action is FxBypass) && !(action is FxEnable) && !(action is FxParam)
            && !(action is FxPreset),
        action is Record || action is Overdub || action is StopTrack || action is Play
            || action is ClearTrack || action is ClearAll || action is SetTempo
            || action is SetQuantize ==> action.shifts_takes(),
{
}

} // verus!
