//! The control side of a running engine: from an action to commands, and from a snapshot to what the
//! window is told.
//!
//! A session never touches audio. It checks an action against the newest snapshot, asks the
//! scheduler for positions, puts commands into the queue and mirrors the two things the snapshot
//! does not carry: the layer gains and the compensation of each track.
use vstd::prelude::*;
use vstd::string::*;
use crate::action::Action;
use crate::bus::{
    bus_label,
    output_label,
        send_label,
    source_label,
    Bus,
    BusSend,
    TrackSource,
};
use crate::command::{
    refusal_message,
    room_used,
    Command,
    CommandSender,
    Refusal,
    Status,
    TrackLatency,
    TrackState,
    TrackStatus,
    MAX_TRACKS,
};
use crate::frame::Channels;
use crate::fx::{preset_label, slot_label, FxPreset, FxSlot};
use crate::limits::{check_loop, loop_error};
use crate::live::{gains_with, is_layer_gain, set_gain, switched, FOUR};
use crate::model::MINUS_ONE;
use crate::midi::text_model;
use crate::proto::{
    grid_name,
    track_event,
    track_told,
    QuantizeName,
    StatusEvent,
    TrackStatusEvent,
};
use crate::rounding::{divide_to_hundredths, quotient_hundredths};
use crate::schedule::{
    push_quoted,
    quoted,
    regrid,
    regridded,
    samples_in,
    Lead,
    Quantize,
    Scheduled,
    Scheduler,
};
use crate::single::{push_hundredths, push_two_decimals, shown_hundredths, two_decimals, Single};
use crate::text::{decimal, holds, push_decimal, stands_at, texts, what_is_put_between_stands_there};
use crate::timeline::{the_first_beat_is_at_zero, Bpm, TimeSignature, Timeline};
use crate::track::UNITY;

verus! {

/// The largest compensation a track may have, in frames: two seconds at 48 kHz.
pub const MAX_LATENCY_FRAMES: u32 = 96000;

/// The control side's view of one track. Everything else - state, input channel, layer count, mute
/// mask - comes from the engine's own snapshot. The gains are mirrored here because they are the one
/// piece of layer state the snapshot does not carry, and they only ever change by command.
#[derive(Debug)]
pub struct TrackUi {
    pub name: String,
    /// How many channels this track's loop buffers have.
    pub channels: Channels,
    pub gains: Vec<Single>,
    /// This track's compensation as the control side last set it.
    pub latency: TrackLatency,
}

/// A track mirror, as mathematics.
#[verifier::ext_equal]
pub struct UiModel {
    pub name: Seq<char>,
    pub channels: Channels,
    pub gains: Seq<Single>,
    pub latency: TrackLatency,
}

impl View for TrackUi {
    type V = UiModel;

    open spec fn view(&self) -> UiModel {
        UiModel {
            name: self.name@,
            channels: self.channels,
            gains: self.gains@,
            latency: self.latency,
        }
    }
}

pub open spec fn ui_models(tracks: Seq<TrackUi>) -> Seq<UiModel> {
    tracks.map_values(|t: TrackUi| t@)
}

/// What an action changes on the control side.
#[derive(Clone, Copy, Debug, PartialEq, Eq, Structural)]
pub enum Change {
    Nothing,
    /// The layers of one track are gone, and with them their gains.
    ForgetGains(usize),
    /// The layers of all tracks are gone.
    ForgetAll,
    DropGain { track: usize, layer: usize },
    SetGain { track: usize, layer: usize, gain: Single },
    Latency { track: usize, latency: TrackLatency },
    /// Another tempo, and layers of another length.
    Retime { timeline: Timeline, bars: u32, layer_frames: u64 },
    Quantize(Quantize),
}

/// What an accepted action comes to: the commands to send, the sentence to show (None leaves the last
/// one standing), and what changes on the control side.
#[derive(Debug)]
pub struct Decision {
    pub commands: Vec<Command>,
    pub message: Option<String>,
    pub change: Change,
}

/// A decision, as mathematics.
#[verifier::ext_equal]
pub struct Decided {
    pub commands: Seq<Command>,
    pub message: Option<Seq<char>>,
    pub change: Change,
}

impl View for Decision {
    type V = Decided;

    open spec fn view(&self) -> Decided {
        Decided {
            commands: self.commands@,
            message: match self.message {
                Some(text) => Some(text@),
                None => None,
            },
            change: self.change,
        }
    }
}

/// Whether a result says what a specification says.
pub open spec fn agrees(r: Result<Decision, String>, wanted: Result<Decided, Seq<char>>) -> bool {
    match wanted {
        Ok(decided) => r matches Ok(decision) && decision@ == decided,
        Err(text) => r matches Err(e) && e@ == text,
    }
}

/// One command and a sentence.
pub open spec fn told(command: Command, text: Seq<char>, change: Change) -> Decided {
    Decided { commands: seq![command], message: Some(text), change }
}

fn tell(command: Command, message: String, change: Change) -> (r: Decision)
    ensures
        r@ == told(command, message@, change),
{
    let r = Decision { commands: vec![command], message: Some(message), change };
    assert(r@ =~= told(command, message@, change));
    r
}

/// One command and nothing to say: a knob being turned is not news.
pub open spec fn quiet(command: Command) -> Decided {
    Decided { commands: seq![command], message: None, change: Change::Nothing }
}

fn silently(command: Command) -> (r: Decision)
    ensures
        r@ == quiet(command),
{
    let r = Decision { commands: vec![command], message: None, change: Change::Nothing };
    assert(r@ =~= quiet(command));
    r
}

pub open spec fn planned(plan: Seq<Command>, text: Seq<char>, change: Change) -> Decided {
    Decided { commands: plan, message: Some(text), change }
}

fn follow(plan: Scheduled, change: Change) -> (r: Decision)
    ensures
        r@ == planned(plan.commands@, plan.message@, change),
{
    Decision { commands: plan.commands, message: Some(plan.message), change }
}

fn about(name: &str) -> (r: String)
    ensures
        r@ == quoted(name@) + ": "@,
{
    let mut r = String::new();
    push_quoted(&mut r, name);
    r.append(": ");
    r
}

fn switch_word(on: bool) -> (r: &'static str)
    ensures
        r@ == switched(on),
{
    if on {
        "an"
    } else {
        "aus"
    }
}

/// A running session, seen from the control side.
pub struct Session {
    pub cmd: CommandSender,
    pub scheduler: Scheduler,
    pub quantize: Quantize,
    pub tracks: Vec<TrackUi>,
    /// Output channels the device really has.
    pub output_channels: usize,
    /// The compensation of a track that has none of its own.
    pub latency_frames: u32,
    /// Length one layer buffer is allocated at.
    pub layer_frames: u64,
    /// True while a score owns the transport: it has been started and is not over.
    pub score_playing: bool,
    pub message: Option<String>,
    pub last: Option<Status>,
    pub last_refusal: (u64, Refusal),
    pub stopped: bool,
}

/// A session, as mathematics.
#[verifier::ext_equal]
pub struct SessionModel {
    pub sent: Seq<Command>,
    pub scheduler: Scheduler,
    pub quantize: Quantize,
    pub tracks: Seq<UiModel>,
    pub output_channels: usize,
    pub latency_frames: u32,
    pub layer_frames: u64,
    pub score_playing: bool,
    pub message: Option<Seq<char>>,
    pub last: Option<Status>,
    pub last_refusal: (u64, Refusal),
    pub stopped: bool,
}

impl View for Session {
    type V = SessionModel;

    open spec fn view(&self) -> SessionModel {
        SessionModel {
            sent: self.cmd.sent(),
            scheduler: self.scheduler,
            quantize: self.quantize,
            tracks: ui_models(self.tracks@),
            output_channels: self.output_channels,
            latency_frames: self.latency_frames,
            layer_frames: self.layer_frames,
            score_playing: self.score_playing,
            message: match self.message {
                Some(text) => Some(text@),
                None => None,
            },
            last: self.last,
            last_refusal: self.last_refusal,
            stopped: self.stopped,
        }
    }
}

/// The compensation of each track.
pub open spec fn latencies(tracks: Seq<UiModel>) -> Seq<TrackLatency> {
    tracks.map_values(|t: UiModel| t.latency)
}

/// The largest compensation among the tracks; without a track, the common value.
pub open spec fn worst_latency(global: int, latencies: Seq<TrackLatency>) -> int
    decreases latencies.len(),
{
    if latencies.len() == 0 {
        global
    } else if latencies.len() == 1 {
        latencies[0].resolved(global)
    } else {
        let rest = worst_latency(global, latencies.drop_last());
        let last = latencies.last().resolved(global);
        if last > rest {
            last
        } else {
            rest
        }
    }
}

pub fn max_latency(global: u32, latencies: &Vec<TrackLatency>) -> (r: u64)
    ensures
        r == worst_latency(global as int, latencies@),
        r <= 0x1_7fff_ffff,
{
    if latencies.len() == 0 {
        return global as u64;
    }
    let mut worst: u64 = latencies[0].resolve(global as u64);
    let mut i: usize = 1;
    assert(latencies@.subrange(0, 1).len() == 1);
    while i < latencies.len()
        invariant
            1 <= i <= latencies.len(),
            worst == worst_latency(global as int, latencies@.subrange(0, i as int)),
            worst <= 0x1_7fff_ffff,
        decreases latencies.len() - i,
    {
        let next: u64 = latencies[i].resolve(global as u64);
        assert(latencies@.subrange(0, i + 1).drop_last() =~= latencies@.subrange(0, i as int));
        assert(latencies@.subrange(0, i + 1).last() == latencies@[i as int]);
        if next > worst {
            worst = next;
        }
        i = i + 1;
    }
    assert(latencies@.subrange(0, i as int) =~= latencies@);
    worst
}

// ---------------------------------------------------------------------------------------------
// What an action means
// ---------------------------------------------------------------------------------------------

pub open spec fn transport_text() -> Seq<char> {
    "Der Transport gehoert gerade der Partitur. Erst \"Alles stoppen\"."@
}

/// What keeps a layer from being edited. A track that records does not let its layers be touched.
pub open spec fn layer_error(layer: usize, ts: TrackStatus, name: Seq<char>) -> Option<Seq<char>> {
    if layer >= ts.layers {
        if ts.layers == 0 {
            Some("Unbekanntes Ziel. "@ + quoted(name) + " hat keine Ebenen."@)
        } else {
            Some(
                "Unbekanntes Ziel. "@ + quoted(name) + " hat die Ebenen 1 bis "@ + decimal(
                    ts.layers as nat,
                ) + "."@,
            )
        }
    } else if ts.state == TrackState::Recording || ts.state == TrackState::Overdub {
        Some("Track ist beschaeftigt."@)
    } else {
        None
    }
}

/// The whole bus assignment of one source of a track, as the engine last reported it.
pub open spec fn send_seen(ts: TrackStatus, source: TrackSource) -> BusSend {
    match source {
        TrackSource::Loop => ts.loop_send,
        TrackSource::Monitor => ts.monitor_send,
    }
}

/// What the newest snapshot shows of one track. Without a snapshot every track is a fresh one.
pub open spec fn track_seen(last: Option<Status>, track: int, ts: TrackStatus) -> bool {
    match last {
        Some(status) => if track < status.shown().len() {
            ts == status.shown()[track]
        } else {
            ts.fresh()
        },
        None => ts.fresh(),
    }
}

/// Whether the newest snapshot shows a track that holds or does something.
pub open spec fn busy_seen(last: Option<Status>) -> bool {
    match last {
        Some(status) => exists|i: int|
            0 <= i < status.shown().len() && status.shown()[i].state != TrackState::Empty,
        None => false,
    }
}

impl SessionModel {
    /// A loop of the configured bars can be counted.
    pub open spec fn wf(self) -> bool {
        &&& self.tracks.len() <= MAX_TRACKS
        &&& self.scheduler.timeline.reaches(
            self.scheduler.bars * self.scheduler.timeline.per_bar(),
        )
    }

    pub open spec fn name(self, track: usize) -> Seq<char> {
        self.tracks[track as int].name
    }

    pub open spec fn missing(self, track: usize) -> Seq<char> {
        "Unbekanntes Ziel. Gemeint war Track "@ + decimal((track + 1) as nat)
            + ", vorhanden sind 1 bis "@ + decimal(self.tracks.len()) + "."@
    }

    /// A send that has been chosen as a whole.
    pub open spec fn sending(self, track: usize, source: TrackSource, send: BusSend) -> Decided {
        told(
            Command::SetTrackSend { track, source, send },
            quoted(self.name(track)) + ": "@ + source_label(source) + " -> "@ + send_label(send)
                + "."@,
            Change::Nothing,
        )
    }

    /// The actions that put a take on the timeline or take one off it.
    pub open spec fn transporting(self, action: Action, est: u64, ts: TrackStatus) -> Decided {
        match action {
            Action::Record { track } => planned(
                self.scheduler.take_plan(self.quantize, track, est),
                self.scheduler.take_text(self.quantize, self.name(track), est),
                Change::ForgetGains(track),
            ),
            Action::Overdub { track } => planned(
                self.scheduler.layer_plan(self.quantize, track, est, ts.origin, ts.loop_len),
                self.scheduler.layer_text(
                    self.quantize,
                    self.name(track),
                    est,
                    ts.origin,
                    ts.loop_len,
                    ts.layers,
                ),
                Change::Nothing,
            ),
            Action::StopTrack { track } => planned(
                self.scheduler.stop_plan(track, est, ts.state),
                self.scheduler.stop_text(self.name(track), est, ts.state),
                Change::Nothing,
            ),
            Action::Play { track } => planned(
                self.scheduler.play_plan(track, est),
                self.scheduler.play_text(self.name(track), est),
                Change::Nothing,
            ),
            Action::ClearTrack { track } => planned(
                self.scheduler.clear_plan(track, est),
                quoted(self.name(track)) + " geleert."@,
                Change::ForgetGains(track),
            ),
            _ => planned(
                self.scheduler.clear_all_plan(est),
                "Alles geleert - Zustand wie frisch gestartet."@,
                Change::ForgetAll,
            ),
        }
    }

    /// The actions on the mix.
    pub open spec fn mixing(self, action: Action, ts: TrackStatus) -> Result<Decided, Seq<char>> {
        match action {
            Action::SetMonitor { track, on } => Ok(
                told(
                    Command::SetMonitor { track, on },
                    quoted(self.name(track)) + ": "@ + "Mithoeren "@ + switched(on) + "."@,
                    Change::Nothing,
                ),
            ),
            Action::SetPan { track, pan } => if (Single { bits: MINUS_ONE }).le(pan) && pan.le(
                Single { bits: UNITY },
            ) {
                Ok(quiet(Command::SetPan { track, pan }))
            } else {
                Err("Das Panorama muss zwischen -1 (ganz links) und 1 (ganz rechts) liegen."@)
            },
            Action::SetTrackSend { track, source, send } => Ok(self.sending(track, source, send)),
            Action::SetTrackBus { track, source, bus, on } => Ok(
                self.sending(track, source, send_seen(ts, source).spec_with(bus, on)),
            ),
            Action::SetBusGain { bus, gain } => if is_layer_gain(gain) {
                Ok(quiet(Command::SetBusGain { bus, gain }))
            } else {
                Err("Die Bus-Lautstaerke muss zwischen 0.0 und 4 liegen."@)
            },
            Action::SetBusOutput { bus, out } => if out.width == 0 || out.width > 2 {
                Err("Ein Bus liegt auf einem Kanal oder auf einem Paar."@)
            } else {
                Ok(
                    told(
                        Command::SetBusOutput { bus, out },
                        bus_label(bus) + " liegt auf Ausgang "@ + output_label(out) + "."@ + (
                        if out.first + out.width > self.output_channels {
                            " Das Geraet hat so viele Kanaele nicht - der Bus landet auf dem naechsten                          Paar, das es gibt."@
                        } else {
                            ""@
                        }),
                        Change::Nothing,
                    ),
                )
            },
            Action::SetClick { on } => Ok(
                told(Command::SetClick { on }, "Klick "@ + switched(on) + "."@, Change::Nothing),
            ),
            _ => Err(""@),
        }
    }

    /// The actions on one layer.
    pub open spec fn layering(self, action: Action, ts: TrackStatus) -> Result<Decided, Seq<char>> {
        match action {
            Action::LayerMute { track, layer, muted } => match layer_error(
                layer,
                ts,
                self.name(track),
            ) {
                Some(text) => Err(text),
                None => Ok(
                    told(
                        Command::SetLayerMute { track, layer, muted },
                        quoted(self.name(track)) + ": "@ + "Ebene "@ + decimal((layer + 1) as nat)
                            + " "@ + (if muted {
                            "stumm"@
                        } else {
                            "wieder hoerbar"@
                        }) + "."@,
                        Change::Nothing,
                    ),
                ),
            },
            Action::LayerRemove { track, layer } => match layer_error(layer, ts, self.name(track)) {
                Some(text) => Err(text),
                None => Ok(
                    told(
                        Command::RemoveLayer { track, layer },
                        quoted(self.name(track)) + ": "@ + "Ebene "@ + decimal((layer + 1) as nat)
                            + " entfernt."@,
                        Change::DropGain { track, layer },
                    ),
                ),
            },
            Action::LayerGain { track, layer, gain } => match layer_error(
                layer,
                ts,
                self.name(track),
            ) {
                Some(text) => Err(text),
                None => if is_layer_gain(gain) {
                    Ok(
                        told(
                            Command::SetLayerGain { track, layer, gain },
                            quoted(self.name(track)) + ": "@ + "Ebene "@ + decimal(
                                (layer + 1) as nat,
                            ) + " auf "@ + shown_hundredths(gain) + "."@,
                            Change::SetGain { track, layer, gain },
                        ),
                    )
                } else {
                    Err("Die Lautstaerke muss zwischen 0.0 und 4.0 liegen."@)
                },
            },
            _ => Err(""@),
        }
    }

    /// The actions on the effects of one track.
    pub open spec fn effecting(self, action: Action) -> Result<Decided, Seq<char>> {
        match action {
            Action::FxBypass { track, on } => Ok(
                told(
                    Command::SetFxBypass { track, on },
                    quoted(self.name(track)) + ": "@ + "Effektkette "@ + (if on {
                        "umgangen"@
                    } else {
                        "aktiv"@
                    }) + "."@,
                    Change::Nothing,
                ),
            ),
            Action::FxEnable { track, slot, on } => Ok(
                told(
                    Command::SetFxEnabled { track, slot, on },
                    quoted(self.name(track)) + ": "@ + slot_label(slot) + " "@ + switched(on) + "."@,
                    Change::Nothing,
                ),
            ),
            Action::FxParam { track, param } => Ok(quiet(Command::SetFxParam { track, param })),
            Action::FxPreset { track, preset } => if preset == FxPreset::Custom {
                Err("\"eigen\" ist kein Preset zum Laden - so heisst eine Kette, an der von                          Hand gedreht wurde."@)
            } else {
                Ok(
                    told(
                        Command::LoadFxPreset { track, preset },
                        quoted(self.name(track)) + ": "@ + "Preset "@ + quoted(preset_label(preset))
                            + " geladen."@,
                        Change::Nothing,
                    ),
                )
            },
            _ => Err(""@),
        }
    }

    /// New latency compensation for one track. Refused where it would make the loop shorter than the
    /// compensation: the write pointer trails the play pointer by this much, so a loop below it would
    /// be overwritten while it is still being written.
    pub open spec fn compensating(self, track: usize, latency: TrackLatency) -> Result<
        Decided,
        Seq<char>,
    > {
        let measured = match latency.measured {
            Some(measured) => measured as int,
            None => 0,
        };
        let global = self.latency_frames as int;
        let worst = worst_latency(global, latencies(self.tracks).update(track as int, latency));
        let effective = latency.resolved(global);
        if latency.trim > MAX_LATENCY_FRAMES || -latency.trim > MAX_LATENCY_FRAMES || measured
            > MAX_LATENCY_FRAMES {
            Err(
                "Die Latenzkompensation muss innerhalb von 96000 Frames liegen (zwei Sekunden bei 48 kHz)."@,
            )
        } else {
            match loop_error(
                self.scheduler.timeline.bar_at(self.scheduler.bars as int),
                self.scheduler.bars,
                worst as u64,
            ) {
                Some(text) => Err(text),
                None => Ok(
                    told(
                        Command::SetTrackLatency { track, latency },
                        quoted(self.name(track)) + ": "@ + "Latenzkompensation "@ + decimal(
                            effective as nat,
                        ) + " Frames ("@ + two_decimals(
                            quotient_hundredths(
                                (effective * 1000) as nat,
                                self.scheduler.timeline.rate() as nat,
                            ) as nat,
                        ) + " ms)"@ + (if latency.measured is None {
                            " - globale Vorgabe "@ + decimal(global as nat)
                        } else {
                            ""@
                        })
                            + ". Wirkt auf kommende Aufnahmen, nicht auf schon Aufgenommenes."@,
                        Change::Latency { track, latency },
                    ),
                ),
            }
        }
    }

    /// The musical grid: tempo, time signature and the number of bars every layer buffer is allocated
    /// at. Only accepted while every track is empty, because it redefines what every sample position
    /// means.
    pub open spec fn regridding(
        self,
        bpm: Bpm,
        shown: Seq<char>,
        signature: TimeSignature,
        bars: u32,
    ) -> Result<(Command, Change), Seq<char>> {
        let bars = if bars == 0 {
            1
        } else {
            bars
        };
        if busy_seen(self.last) {
            Err("Tempo abgelehnt."@)
        } else {
            match regridded(
                self.scheduler.timeline.rate() as u32,
                bpm,
                shown,
                signature,
                bars,
                worst_latency(self.latency_frames as int, latencies(self.tracks)) as u64,
            ) {
                Err(text) => Err(text),
                Ok(layer_frames) => Ok(
                    (
                        Command::SetTempo { bpm, signature, layer_capacity: layer_frames },
                        Change::Retime {
                            timeline: self.scheduler.timeline.retimed(bpm, signature),
                            bars,
                            layer_frames,
                        },
                    ),
                ),
            }
        }
    }

    /// Another tempo. `shown` is the tempo as it is written.
    pub open spec fn retiming(self, bpm: Bpm, shown: Seq<char>, signature: TimeSignature) -> Result<
        Decided,
        Seq<char>,
    > {
        match self.regridding(bpm, shown, signature, self.scheduler.bars) {
            Err(text) => Err(text),
            Ok((command, change)) => Ok(
                told(
                    command,
                    "Tempo "@ + shown + " BPM, "@ + decimal(signature.beats_per_bar as nat) + "/"@
                        + decimal(signature.beat_unit as nat) + "."@,
                    change,
                ),
            ),
        }
    }

    /// What an action comes to, where the track it addresses looks like `ts` and the engine is at
    /// `est`.
    pub open spec fn decision(
        self,
        action: Action,
        shown: Seq<char>,
        est: u64,
        ts: TrackStatus,
    ) -> Result<Decided, Seq<char>> {
        if action.target() matches Some(track) && track >= self.tracks.len() {
            Err(self.missing(action.target()->0))
        } else if action.shifts_takes() && self.score_playing {
            Err(transport_text())
        } else {
            match action {
                Action::Record { .. } | Action::Overdub { .. } | Action::StopTrack { .. }
                | Action::Play { .. } | Action::ClearTrack { .. } | Action::ClearAll => Ok(
                    self.transporting(action, est, ts),
                ),
                Action::LayerMute { .. } | Action::LayerRemove { .. } | Action::LayerGain { .. } => {
                    self.layering(action, ts)
                },
                Action::FxBypass { .. } | Action::FxEnable { .. } | Action::FxParam { .. }
                | Action::FxPreset { .. } => self.effecting(action),
                Action::SetTrackLatency { track, latency } => self.compensating(track, latency),
                Action::SetTempo { bpm, beats_per_bar, beat_unit } => self.retiming(
                    bpm,
                    shown,
                    TimeSignature { beats_per_bar, beat_unit },
                ),
                Action::SetQuantize { quantize } => Ok(
                    Decided {
                        commands: Seq::empty(),
                        message: Some(quantize_text(quantize)),
                        change: Change::Quantize(quantize),
                    },
                ),
                _ => self.mixing(action, ts),
            }
        }
    }
}

pub open spec fn quantize_text(quantize: Quantize) -> Seq<char> {
    match quantize {
        Quantize::Bar => "Aufnahmen beginnen am naechsten Takt."@,
        Quantize::Loop => "Aufnahmen beginnen am naechsten Loop-Anfang."@,
    }
}

/// The inputs on which an action can be worked out: the numbers it names can be counted on from.
pub open spec fn countable(action: Action) -> bool {
    &&& action.target() matches Some(track) ==> track < usize::MAX
    &&& action matches Action::SetBusOutput { out, .. } ==> out.countable()
}

// ---------------------------------------------------------------------------------------------
// From an action to a decision
// ---------------------------------------------------------------------------------------------

proof fn lemma_ui(tracks: Seq<TrackUi>, t: int)
    requires
        0 <= t < tracks.len(),
    ensures
        ui_models(tracks).len() == tracks.len(),
        ui_models(tracks)[t] == tracks[t]@,
{
}

impl Session {
    /// Check a layer index against what the engine says exists on that track.
    fn check_layer(&self, track: usize, layer: usize, ts: &TrackStatus) -> (r: Result<(), String>)
        requires
            track < self.tracks@.len(),
        ensures
            match layer_error(layer, *ts, self@.name(track)) {
                Some(text) => r matches Err(e) && e@ == text,
                None => r is Ok && layer < ts.layers,
            },
    {
        proof {
            lemma_ui(self.tracks@, track as int);
        }
        if layer >= ts.layers as usize {
            let mut text = String::new();
            text.append("Unbekanntes Ziel. ");
            push_quoted(&mut text, self.tracks[track].name.as_str());
            if ts.layers == 0 {
                text.append(" hat keine Ebenen.");
            } else {
                text.append(" hat die Ebenen 1 bis ");
                push_decimal(&mut text, ts.layers as u64);
                text.append(".");
            }
            assert(text@ =~= layer_error(layer, *ts, self@.name(track))->0);
            return Err(text);
        }
        if ts.state == TrackState::Recording || ts.state == TrackState::Overdub {
            return Err("Track ist beschaeftigt.".to_owned());
        }
        Ok(())
    }

    fn transport(&self, action: Action, est: u64, ts: &TrackStatus) -> (r: Decision)
        requires
            self@.wf(),
            self.scheduler.plannable(self.quantize, est, ts.origin, ts.loop_len),
            action.target() matches Some(track) ==> track < self.tracks@.len(),
        ensures
            r@ == self@.transporting(action, est, *ts),
    {
        proof {
            if let Some(track) = action.target() {
                lemma_ui(self.tracks@, track as int);
            }
        }
        match action {
            Action::Record { track } => follow(
                self.scheduler.record_on(
                    self.quantize,
                    track,
                    self.tracks[track].name.as_str(),
                    est,
                ),
                Change::ForgetGains(track),
            ),
            Action::Overdub { track } => follow(
                self.scheduler.overdub_on(
                    self.quantize,
                    track,
                    self.tracks[track].name.as_str(),
                    est,
                    ts.origin,
                    ts.loop_len,
                    ts.layers,
                ),
                Change::Nothing,
            ),
            Action::StopTrack { track } => follow(
                self.scheduler.stop(track, self.tracks[track].name.as_str(), est, ts.state),
                Change::Nothing,
            ),
            Action::Play { track } => follow(
                self.scheduler.play(track, self.tracks[track].name.as_str(), est),
                Change::Nothing,
            ),
            Action::ClearTrack { track } => follow(
                self.scheduler.clear_track(track, self.tracks[track].name.as_str(), est),
                Change::ForgetGains(track),
            ),
            _ => follow(self.scheduler.clear_all(est), Change::ForgetAll),
        }
    }

    fn send_to(&self, track: usize, source: TrackSource, send: BusSend) -> (r: Decision)
        requires
            track < self.tracks@.len(),
        ensures
            r@ == self@.sending(track, source, send),
    {
        proof {
            lemma_ui(self.tracks@, track as int);
        }
        let mut text: String = about(self.tracks[track].name.as_str());
        text.append(source.label());
        text.append(" -> ");
        text.append(send.label());
        text.append(".");
        assert(text@ =~= self@.sending(track, source, send).message->0);
        tell(Command::SetTrackSend { track, source, send }, text, Change::Nothing)
    }

    fn mix(&self, action: Action, ts: &TrackStatus) -> (r: Result<Decision, String>)
        requires
            countable(action),
            action.target() matches Some(track) ==> track < self.tracks@.len(),
        ensures
            agrees(r, self@.mixing(action, *ts)),
    {
        proof {
            if let Some(track) = action.target() {
                lemma_ui(self.tracks@, track as int);
            }
        }
        match action {
            Action::SetMonitor { track, on } => {
                let mut text: String = about(self.tracks[track].name.as_str());
                text.append("Mithoeren ");
                text.append(switch_word(on));
                text.append(".");
                assert(text@ =~= self@.mixing(action, *ts)->Ok_0.message->0);
                Ok(tell(Command::SetMonitor { track, on }, text, Change::Nothing))
            },
            Action::SetPan { track, pan } => {
                if pan.within(Single { bits: MINUS_ONE }, Single { bits: UNITY }) {
                    Ok(silently(Command::SetPan { track, pan }))
                } else {
                    Err(
                        "Das Panorama muss zwischen -1 (ganz links) und 1 (ganz rechts) liegen.".to_owned(),
                    )
                }
            },
            Action::SetTrackSend { track, source, send } => Ok(self.send_to(track, source, send)),
            Action::SetTrackBus { track, source, bus, on } => {
                let current: BusSend = match source {
                    TrackSource::Loop => ts.loop_send,
                    TrackSource::Monitor => ts.monitor_send,
                };
                Ok(self.send_to(track, source, current.with(bus, on)))
            },
            Action::SetBusGain { bus, gain } => {
                if gain.within(Single { bits: 0 }, Single { bits: FOUR }) {
                    Ok(silently(Command::SetBusGain { bus, gain }))
                } else {
                    Err("Die Bus-Lautstaerke muss zwischen 0.0 und 4 liegen.".to_owned())
                }
            },
            Action::SetBusOutput { bus, out } => {
                if out.width == 0 || out.width > 2 {
                    return Err("Ein Bus liegt auf einem Kanal oder auf einem Paar.".to_owned());
                }
                let mut text = String::new();
                text.append(bus.label());
                text.append(" liegt auf Ausgang ");
                text.append(out.label().as_str());
                text.append(".");
                text.append(
                    if out.first + out.width > self.output_channels {
                        " Das Geraet hat so viele Kanaele nicht - der Bus landet auf dem naechsten                          Paar, das es gibt."
                    } else {
                        ""
                    },
                );
                assert(text@ =~= self@.mixing(action, *ts)->Ok_0.message->0);
                Ok(tell(Command::SetBusOutput { bus, out }, text, Change::Nothing))
            },
            Action::SetClick { on } => {
                let mut text = String::new();
                text.append("Klick ");
                text.append(switch_word(on));
                text.append(".");
                assert(text@ =~= self@.mixing(action, *ts)->Ok_0.message->0);
                Ok(tell(Command::SetClick { on }, text, Change::Nothing))
            },
            _ => Err("".to_owned()),
        }
    }

    fn edit_layer(&self, action: Action, ts: &TrackStatus) -> (r: Result<Decision, String>)
        requires
            action.target() matches Some(track) ==> track < self.tracks@.len(),
        ensures
            agrees(r, self@.layering(action, *ts)),
            r matches Ok(decision) ==> decision.change matches Change::SetGain { layer, .. }
                ==> layer < 256,
    {
        proof {
            if let Some(track) = action.target() {
                lemma_ui(self.tracks@, track as int);
            }
        }
        match action {
            Action::LayerMute { track, layer, muted } => {
                match self.check_layer(track, layer, ts) {
                    Err(text) => Err(text),
                    Ok(()) => {
                        let mut text: String = about(self.tracks[track].name.as_str());
                        text.append("Ebene ");
                        push_decimal(&mut text, layer as u64 + 1);
                        text.append(" ");
                        text.append(
                            if muted {
                                "stumm"
                            } else {
                                "wieder hoerbar"
                            },
                        );
                        text.append(".");
                        assert(text@ =~= self@.layering(action, *ts)->Ok_0.message->0);
                        Ok(
                            tell(
                                Command::SetLayerMute { track, layer, muted },
                                text,
                                Change::Nothing,
                            ),
                        )
                    },
                }
            },
            Action::LayerRemove { track, layer } => {
                match self.check_layer(track, layer, ts) {
                    Err(text) => Err(text),
                    Ok(()) => {
                        let mut text: String = about(self.tracks[track].name.as_str());
                        text.append("Ebene ");
                        push_decimal(&mut text, layer as u64 + 1);
                        text.append(" entfernt.");
                        assert(text@ =~= self@.layering(action, *ts)->Ok_0.message->0);
                        Ok(
                            tell(
                                Command::RemoveLayer { track, layer },
                                text,
                                Change::DropGain { track, layer },
                            ),
                        )
                    },
                }
            },
            Action::LayerGain { track, layer, gain } => {
                match self.check_layer(track, layer, ts) {
                    Err(text) => Err(text),
                    Ok(()) => {
                        if !gain.within(Single { bits: 0 }, Single { bits: FOUR }) {
                            return Err(
                                "Die Lautstaerke muss zwischen 0.0 und 4.0 liegen.".to_owned(),
                            );
                        }
                        let mut text: String = about(self.tracks[track].name.as_str());
                        text.append("Ebene ");
                        push_decimal(&mut text, layer as u64 + 1);
                        text.append(" auf ");
                        push_hundredths(&mut text, gain);
                        text.append(".");
                        assert(text@ =~= self@.layering(action, *ts)->Ok_0.message->0);
                        Ok(
                            tell(
                                Command::SetLayerGain { track, layer, gain },
                                text,
                                Change::SetGain { track, layer, gain },
                            ),
                        )
                    },
                }
            },
            _ => Err("".to_owned()),
        }
    }

    fn edit_fx(&self, action: Action) -> (r: Result<Decision, String>)
        requires
            action.target() matches Some(track) ==> track < self.tracks@.len(),
        ensures
            agrees(r, self@.effecting(action)),
    {
        proof {
            if let Some(track) = action.target() {
                lemma_ui(self.tracks@, track as int);
            }
        }
        match action {
            Action::FxBypass { track, on } => {
                let mut text: String = about(self.tracks[track].name.as_str());
                text.append("Effektkette ");
                text.append(
                    if on {
                        "umgangen"
                    } else {
                        "aktiv"
                    },
                );
                text.append(".");
                assert(text@ =~= self@.effecting(action)->Ok_0.message->0);
                Ok(tell(Command::SetFxBypass { track, on }, text, Change::Nothing))
            },
            Action::FxEnable { track, slot, on } => {
                let mut text: String = about(self.tracks[track].name.as_str());
                text.append(slot.label());
                text.append(" ");
                text.append(switch_word(on));
                text.append(".");
                assert(text@ =~= self@.effecting(action)->Ok_0.message->0);
                Ok(tell(Command::SetFxEnabled { track, slot, on }, text, Change::Nothing))
            },
            Action::FxParam { track, param } => Ok(silently(Command::SetFxParam { track, param })),
            Action::FxPreset { track, preset } => {
                if preset == FxPreset::Custom {
                    return Err(
                        "\"eigen\" ist kein Preset zum Laden - so heisst eine Kette, an der von                          Hand gedreht wurde.".to_owned(),
                    );
                }
                let mut text: String = about(self.tracks[track].name.as_str());
                text.append("Preset ");
                push_quoted(&mut text, preset.label());
                text.append(" geladen.");
                assert(text@ =~= self@.effecting(action)->Ok_0.message->0);
                Ok(tell(Command::LoadFxPreset { track, preset }, text, Change::Nothing))
            },
            _ => Err("".to_owned()),
        }
    }

    /// The compensation of every track, with that of one track replaced.
    fn latency_list(&self, replaced: Option<(usize, TrackLatency)>) -> (r: Vec<TrackLatency>)
        requires
            replaced matches Some((track, _)) ==> track < self.tracks@.len(),
        ensures
            r@ == (match replaced {
                Some((track, latency)) => latencies(self@.tracks).update(track as int, latency),
                None => latencies(self@.tracks),
            }),
    {
        let mut list: Vec<TrackLatency> = Vec::new();
        let mut i: usize = 0;
        while i < self.tracks.len()
            invariant
                i <= self.tracks.len(),
                list@ == latencies(self@.tracks).subrange(0, i as int),
            decreases self.tracks.len() - i,
        {
            list.push(self.tracks[i].latency);
            assert(list@ =~= latencies(self@.tracks).subrange(0, i + 1));
            i = i + 1;
        }
        assert(list@ =~= latencies(self@.tracks));
        if let Some((track, latency)) = replaced {
            list[track] = latency;
        }
        list
    }

    fn set_track_latency(&self, track: usize, latency: TrackLatency) -> (r: Result<
        Decision,
        String,
    >)
        requires
            self@.wf(),
            track < self.tracks@.len(),
        ensures
            agrees(r, self@.compensating(track, latency)),
    {
        proof {
            lemma_ui(self.tracks@, track as int);
        }
        let measured: u32 = match latency.measured {
            Some(measured) => measured,
            None => 0,
        };
        if latency.trim > 96000 || latency.trim < -96000 || measured > MAX_LATENCY_FRAMES {
            return Err(
                "Die Latenzkompensation muss innerhalb von 96000 Frames liegen (zwei Sekunden bei 48 kHz).".to_owned(),
            );
        }
        let list: Vec<TrackLatency> = self.latency_list(Some((track, latency)));
        let worst: u64 = max_latency(self.latency_frames, &list);
        match check_loop(&self.scheduler.timeline, self.scheduler.bars, worst) {
            Err(text) => Err(text),
            Ok(()) => {
                let effective: u64 = latency.resolve(self.latency_frames as u64);
                let rate: u32 = self.scheduler.timeline.sample_rate();
                let mut text: String = about(self.tracks[track].name.as_str());
                text.append("Latenzkompensation ");
                push_decimal(&mut text, effective);
                text.append(" Frames (");
                push_two_decimals(&mut text, divide_to_hundredths(effective * 1000, rate));
                text.append(" ms)");
                if latency.inherits() {
                    text.append(" - globale Vorgabe ");
                    push_decimal(&mut text, self.latency_frames as u64);
                }
                text.append(". Wirkt auf kommende Aufnahmen, nicht auf schon Aufgenommenes.");
                proof {
                    reveal_strlit("");
                }
                assert(text@ =~= self@.compensating(track, latency)->Ok_0.message->0);
                Ok(
                    tell(
                        Command::SetTrackLatency { track, latency },
                        text,
                        Change::Latency { track, latency },
                    ),
                )
            },
        }
    }

    /// Whether the newest snapshot shows a track that holds or does something.
    fn is_busy(&self) -> (r: bool)
        ensures
            r == busy_seen(self.last),
    {
        match self.last {
            Some(status) => status.any_busy(),
            None => false,
        }
    }

    fn reconfigure(&self, bpm: Bpm, shown: &str, signature: TimeSignature, bars: u32) -> (r: Result<
        (Command, Change),
        String,
    >)
        ensures
            match self@.regridding(bpm, shown@, signature, bars) {
                Ok(grid) => r matches Ok(x) && x == grid,
                Err(text) => r matches Err(e) && e@ == text,
            },
            r matches Ok((_, change)) ==> {
                &&& change matches Change::Retime { timeline, bars, .. }
                &&& timeline.reaches(bars * timeline.per_bar())
            },
    {
        if self.is_busy() {
            return Err("Tempo abgelehnt.".to_owned());
        }
        let bars: u32 = if bars == 0 {
            1
        } else {
            bars
        };
        let list: Vec<TrackLatency> = self.latency_list(None);
        let worst: u64 = max_latency(self.latency_frames, &list);
        match regrid(&self.scheduler.timeline, bpm, shown, signature, bars, worst) {
            Err(text) => Err(text),
            Ok((timeline, layer_frames)) => Ok(
                (
                    Command::SetTempo { bpm, signature, layer_capacity: layer_frames },
                    Change::Retime { timeline, bars, layer_frames },
                ),
            ),
        }
    }

    fn set_tempo(&self, bpm: Bpm, shown: &str, signature: TimeSignature) -> (r: Result<
        Decision,
        String,
    >)
        ensures
            agrees(r, self@.retiming(bpm, shown@, signature)),
            r matches Ok(decision) ==> {
                &&& decision.change matches Change::Retime { timeline, bars, .. }
                &&& timeline.reaches(bars * timeline.per_bar())
            },
    {
        match self.reconfigure(bpm, shown, signature, self.scheduler.bars) {
            Err(text) => Err(text),
            Ok((command, change)) => {
                let mut text = String::new();
                text.append("Tempo ");
                text.append(shown);
                text.append(" BPM, ");
                push_decimal(&mut text, signature.beats_per_bar as u64);
                text.append("/");
                push_decimal(&mut text, signature.beat_unit as u64);
                text.append(".");
                assert(text@ =~= self@.retiming(bpm, shown@, signature)->Ok_0.message->0);
                Ok(tell(command, text, change))
            },
        }
    }

    /// What an action comes to, where the track it addresses looks like `ts` and the engine is at
    /// `est`. `shown` is a tempo as it is written.
    pub fn decide(&self, action: Action, shown: &str, est: u64, ts: &TrackStatus) -> (r: Result<
        Decision,
        String,
    >)
        requires
            self@.wf(),
            countable(action),
            self.scheduler.plannable(self.quantize, est, ts.origin, ts.loop_len),
        ensures
            agrees(r, self@.decision(action, shown@, est, *ts)),
            r matches Ok(decision) ==> sound(self@, decision.change),
    {
        if let Some(track) = action.track() {
            if track >= self.tracks.len() {
                let mut text = String::new();
                text.append("Unbekanntes Ziel. Gemeint war Track ");
                push_decimal(&mut text, track as u64 + 1);
                text.append(", vorhanden sind 1 bis ");
                push_decimal(&mut text, self.tracks.len() as u64);
                text.append(".");
                assert(text@ =~= self@.missing(track));
                return Err(text);
            }
        }
        if action.moves_transport() && self.score_playing {
            return Err(
                "Der Transport gehoert gerade der Partitur. Erst \"Alles stoppen\".".to_owned(),
            );
        }
        match action {
            Action::Record { .. } | Action::Overdub { .. } | Action::StopTrack { .. }
            | Action::Play { .. } | Action::ClearTrack { .. } | Action::ClearAll => Ok(
                self.transport(action, est, ts),
            ),
            Action::LayerMute { .. } | Action::LayerRemove { .. } | Action::LayerGain { .. } => {
                self.edit_layer(action, ts)
            },
            Action::FxBypass { .. } | Action::FxEnable { .. } | Action::FxParam { .. }
            | Action::FxPreset { .. } => self.edit_fx(action),
            Action::SetTrackLatency { track, latency } => self.set_track_latency(track, latency),
            Action::SetTempo { bpm, beats_per_bar, beat_unit } => self.set_tempo(
                bpm,
                shown,
                TimeSignature::new(beats_per_bar, beat_unit),
            ),
            Action::SetQuantize { quantize } => {
                let message: String = (match quantize {
                    Quantize::Bar => "Aufnahmen beginnen am naechsten Takt.",
                    Quantize::Loop => "Aufnahmen beginnen am naechsten Loop-Anfang.",
                }).to_owned();
                let decision = Decision {
                    commands: Vec::new(),
                    message: Some(message),
                    change: Change::Quantize(quantize),
                };
                assert(decision@.commands =~= Seq::<Command>::empty());
                Ok(decision)
            },
            _ => self.mix(action, ts),
        }
    }
}

/// A change only names tracks that exist, and a grid that can be counted.
pub open spec fn sound(session: SessionModel, change: Change) -> bool {
    match change {
        Change::ForgetGains(track) => track < session.tracks.len(),
        Change::DropGain { track, .. } => track < session.tracks.len(),
        Change::SetGain { track, layer, .. } => track < session.tracks.len() && layer < 256,
        Change::Latency { track, .. } => track < session.tracks.len(),
        Change::Retime { timeline, bars, .. } => timeline.reaches(bars * timeline.per_bar()),
        _ => true,
    }
}

// ---------------------------------------------------------------------------------------------
// Carrying it out
// ---------------------------------------------------------------------------------------------

impl SessionModel {
    pub open spec fn with_gains(self, track: usize, gains: Seq<Single>) -> SessionModel {
        SessionModel {
            tracks: self.tracks.update(
                track as int,
                UiModel { gains, ..self.tracks[track as int] },
            ),
            ..self
        }
    }

    /// The control side after a change.
    pub open spec fn changed(self, change: Change) -> SessionModel {
        match change {
            Change::Nothing => self,
            Change::ForgetGains(track) => self.with_gains(track, Seq::empty()),
            Change::ForgetAll => SessionModel {
                tracks: self.tracks.map_values(|t: UiModel| UiModel { gains: Seq::empty(), ..t }),
                ..self
            },
            Change::DropGain { track, layer } => {
                let gains = self.tracks[track as int].gains;
                if layer < gains.len() {
                    self.with_gains(track, gains.remove(layer as int))
                } else {
                    self
                }
            },
            Change::SetGain { track, layer, gain } => self.with_gains(
                track,
                gains_with(self.tracks[track as int].gains, layer, gain),
            ),
            Change::Latency { track, latency } => SessionModel {
                tracks: self.tracks.update(
                    track as int,
                    UiModel { latency, ..self.tracks[track as int] },
                ),
                ..self
            },
            Change::Retime { timeline, bars, layer_frames } => SessionModel {
                scheduler: Scheduler { timeline, bars, ..self.scheduler },
                layer_frames,
                ..self
            },
            Change::Quantize(quantize) => SessionModel { quantize, ..self },
        }
    }

    /// The session after a decision whose commands all found room in the queue.
    pub open spec fn done(self, decided: Decided) -> SessionModel {
        SessionModel {
            sent: self.sent + decided.commands,
            message: match decided.message {
                Some(text) => Some(text),
                None => self.message,
            },
            ..self.changed(decided.change)
        }
    }

    /// The session after a decision of which only the first `n` commands found room. What a plan
    /// throws away is thrown away before anything is sent.
    pub open spec fn stuck(self, decided: Decided, n: int) -> SessionModel {
        let start = if decided.change is ForgetGains || decided.change is ForgetAll {
            self.changed(decided.change)
        } else {
            self
        };
        SessionModel { sent: self.sent + decided.commands.subrange(0, n), ..start }
    }
}

/// What the session knows of the track an action addresses.
pub open spec fn seen_by(action: Action, last: Option<Status>, ts: TrackStatus) -> bool {
    match action.target() {
        Some(track) => track_seen(last, track as int, ts),
        None => ts.fresh(),
    }
}

/// Where the loop of the track an action addresses begins and how long it is, as the newest snapshot
/// shows it.
pub open spec fn loop_seen_by(action: Action, last: Option<Status>) -> (u64, u64) {
    match (action.target(), last) {
        (Some(track), Some(status)) => if track < status.shown().len() {
            (status.shown()[track as int].origin, status.shown()[track as int].loop_len)
        } else {
            (0, 0)
        },
        _ => (0, 0),
    }
}

/// Whether an action can be worked out in a session: the numbers it names and the positions it leads
/// to can be counted.
pub open spec fn workable(session: Session, action: Action, nanos: u64) -> bool {
    let (origin, loop_len) = loop_seen_by(action, session.last);
    &&& countable(action)
    &&& session.estimate(nanos) <= u64::MAX
    &&& session.scheduler.plannable(
        session.quantize,
        session.estimate(nanos) as u64,
        origin,
        loop_len,
    )
}

/// The sentence of a command that found no room.
pub open spec fn queue_full() -> Seq<char> {
    "Kommando-Queue ist voll - der Audio-Thread holt nichts mehr ab."@
}

/// Whether an action has been answered as its decision says: refused with nothing changed, carried
/// out, or stuck because the audio thread stopped consuming.
///
/// A queue that has room for all the commands of a decision takes them all.
pub open spec fn answered(
    before: Session,
    after: Session,
    wanted: Result<Decided, Seq<char>>,
    r: Result<(), String>,
) -> bool {
    match wanted {
        Err(text) => {
            &&& after@ == before@
            &&& after.cmd == before.cmd
            &&& r matches Err(e) && e@ == text
        },
        Ok(decided) => {
            &&& room_used(before.cmd, after.cmd, decided.commands.len(), r is Ok)
            &&& match r {
                Ok(()) => after@ == before@.done(decided),
                Err(e) => {
                    &&& e@ == queue_full()
                    &&& exists|n: int|
                        0 <= n < decided.commands.len() && after@ == #[trigger] before@.stuck(
                            decided,
                            n,
                        )
                },
            }
        },
    }
}

impl Session {
    /// Push a list of commands into the queue, oldest first, up to the first that finds no room.
    fn send_all(&mut self, commands: &Vec<Command>) -> (r: Result<(), String>)
        ensures
            r is Ok ==> final(self)@ == (SessionModel {
                sent: old(self)@.sent + commands@,
                ..old(self)@
            }),
            r matches Err(e) ==> e@ == queue_full() && exists|n: int|
                0 <= n < commands@.len() && final(self)@ == (SessionModel {
                    sent: old(self)@.sent + #[trigger] commands@.subrange(0, n),
                    ..old(self)@
                }),
            room_used(old(self).cmd, final(self).cmd, commands@.len(), r is Ok),
    {
        let mut i: usize = 0;
        assert(self@.sent + commands@.subrange(0, 0) =~= self@.sent);
        while i < commands.len()
            invariant
                i <= commands.len(),
                self.cmd.queue() == old(self).cmd.queue(),
                old(self).cmd.room() >= commands@.len() ==> self.cmd.room()
                    == old(self).cmd.room() - i,
                self@ == (SessionModel {
                    sent: old(self)@.sent + commands@.subrange(0, i as int),
                    ..old(self)@
                }),
            decreases commands.len() - i,
        {
            match self.cmd.send(commands[i]) {
                Ok(()) => {},
                Err(text) => {
                    assert(self@ =~= (SessionModel {
                        sent: old(self)@.sent + commands@.subrange(0, i as int),
                        ..old(self)@
                    }));
                    return Err(text);
                },
            }
            assert(old(self)@.sent + commands@.subrange(0, i + 1) =~= (old(self)@.sent
                + commands@.subrange(0, i as int)).push(commands@[i as int]));
            i = i + 1;
        }
        assert(commands@.subrange(0, i as int) =~= commands@);
        Ok(())
    }

    fn forget_all(&mut self)
        ensures
            final(self)@ == old(self)@.changed(Change::ForgetAll),
            final(self).cmd == old(self).cmd,
    {
        let ghost before = self.tracks@;
        let mut i: usize = 0;
        while i < self.tracks.len()
            invariant
                i <= self.tracks.len(),
                self.tracks@.len() == before.len(),
                before == old(self).tracks@,
                *self == (Session { tracks: self.tracks, ..*old(self) }),
                forall|j: int|
                    0 <= j < i ==> (#[trigger] self.tracks@[j])@ == (UiModel {
                        gains: Seq::empty(),
                        ..before[j]@
                    }),
                forall|j: int| i <= j < before.len() ==> #[trigger] self.tracks@[j] == before[j],
            decreases self.tracks.len() - i,
        {
            self.tracks[i].gains = Vec::new();
            assert(self.tracks@[i as int]@ =~= (UiModel { gains: Seq::empty(), ..before[i as int]@ }));
            i = i + 1;
        }
        assert(self@.tracks =~= old(self)@.changed(Change::ForgetAll).tracks);
    }

    /// Change the control side.
    fn change(&mut self, change: Change)
        requires
            sound(old(self)@, change),
        ensures
            final(self)@ == old(self)@.changed(change),
            final(self).cmd == old(self).cmd,
    {
        let ghost before = self@;
        match change {
            Change::Nothing => {},
            Change::ForgetGains(track) => {
                proof {
                    lemma_ui(self.tracks@, track as int);
                }
                self.tracks[track].gains = Vec::new();
                assert(self@.tracks =~= before.changed(change).tracks);
            },
            Change::ForgetAll => {
                self.forget_all();
            },
            Change::DropGain { track, layer } => {
                proof {
                    lemma_ui(self.tracks@, track as int);
                }
                if layer < self.tracks[track].gains.len() {
                    self.tracks[track].gains.remove(layer);
                    assert(self@.tracks =~= before.changed(change).tracks);
                }
            },
            Change::SetGain { track, layer, gain } => {
                proof {
                    lemma_ui(self.tracks@, track as int);
                }
                set_gain(&mut self.tracks[track].gains, layer, gain);
                assert(self@.tracks =~= before.changed(change).tracks);
            },
            Change::Latency { track, latency } => {
                proof {
                    lemma_ui(self.tracks@, track as int);
                }
                self.tracks[track].latency = latency;
                assert(self@.tracks =~= before.changed(change).tracks);
            },
            Change::Retime { timeline, bars, layer_frames } => {
                self.scheduler.timeline = timeline;
                self.scheduler.bars = bars;
                self.layer_frames = layer_frames;
            },
            Change::Quantize(quantize) => {
                self.quantize = quantize;
            },
        }
    }

    /// Carry a decision out.
    fn carry_out(&mut self, decision: Decision) -> (r: Result<(), String>)
        requires
            old(self)@.wf(),
            sound(old(self)@, decision.change),
        ensures
            final(self)@.wf(),
            answered(*old(self), *final(self), Ok(decision@), r),
    {
        let ghost before = self@;
        let ghost decided = decision@;
        let forgets: bool = matches!(
            decision.change,
            Change::ForgetGains(_) | Change::ForgetAll
        );
        if forgets {
            self.change(decision.change);
        }
        let ghost start = self@;
        match self.send_all(&decision.commands) {
            Err(text) => {
                proof {
                    let n = choose|n: int|
                        0 <= n < decided.commands.len() && self@ == (SessionModel {
                            sent: start.sent + #[trigger] decided.commands.subrange(0, n),
                            ..start
                        });
                    assert(self@ =~= before.stuck(decided, n));
                }
                return Err(text);
            },
            Ok(()) => {},
        }
        if !forgets {
            self.change(decision.change);
        }
        if let Some(text) = decision.message {
            self.message = Some(text);
        }
        assert(self@ =~= before.done(decided));
        Ok(())
    }

    /// The newest snapshot of one track.
    pub fn status_of(&self, track: usize) -> (r: TrackStatus)
        ensures
            track_seen(self.last, track as int, r),
    {
        match self.last {
            Some(status) => status.track(track),
            None => TrackStatus::default(),
        }
    }

    /// Where the audio thread is taken to be, `nanos` after the newest snapshot arrived.
    pub open spec fn estimate(self, nanos: u64) -> int {
        match self.last {
            Some(status) => status.pos + samples_in(
                nanos as int,
                self.scheduler.timeline.rate(),
            ),
            None => 0,
        }
    }

    /// Whether an action can be worked out: the numbers it names and the positions it leads to can be
    /// counted.
    pub fn can_apply(&self, action: Action, nanos: u64) -> (r: bool)
        ensures
            r == workable(*self, action, nanos),
    {
        if let Some(track) = action.track() {
            if track == usize::MAX {
                return false;
            }
        }
        if let Action::SetBusOutput { out, .. } = action {
            let width: usize = if out.width >= 2 {
                2
            } else {
                1
            };
            if out.first > usize::MAX - width {
                return false;
            }
        }
        let (origin, loop_len): (u64, u64) = match action.track() {
            Some(track) => {
                let ts: TrackStatus = self.status_of(track);
                (ts.origin, ts.loop_len)
            },
            None => (0, 0),
        };
        let est: u64 = match self.last {
            None => 0,
            Some(status) => {
                let rate: u32 = self.scheduler.timeline.sample_rate();
                proof {
                    assert(0 <= nanos * rate <= 0xffff_ffff_ffff_ffff * 0xffff_ffff)
                        by (nonlinear_arith)
                        requires
                            0 <= nanos <= 0xffff_ffff_ffff_ffff,
                            0 <= rate <= 0xffff_ffff,
                    ;
                }
                let passed: u128 = nanos as u128 * rate as u128 / 1_000_000_000;
                if status.pos as u128 + passed > 0xffff_ffff_ffff_ffff {
                    return false;
                }
                status.pos + passed as u64
            },
        };
        self.scheduler.can_plan_on(self.quantize, est, origin, loop_len)
    }

    /// One user action, `nanos` after the newest snapshot arrived. `shown` is a tempo as it is
    /// written.
    pub fn apply(&mut self, action: Action, shown: &str, nanos: u64) -> (r: Result<(), String>)
        requires
            old(self)@.wf(),
            workable(*old(self), action, nanos),
        ensures
            final(self)@.wf(),
            exists|ts: TrackStatus|
                {
                    &&& #[trigger] seen_by(action, old(self).last, ts)
                    &&& answered(
                        *old(self),
                        *final(self),
                        old(self)@.decision(
                            action,
                            shown@,
                            old(self).estimate(nanos) as u64,
                            ts,
                        ),
                        r,
                    )
                },
    {
        let est: u64 = self.scheduler.estimated_pos(
            match self.last {
                Some(status) => Some((status.pos, nanos)),
                None => None,
            },
        );
        let ts: TrackStatus = match action.track() {
            Some(track) => self.status_of(track),
            None => TrackStatus::default(),
        };
        assert(seen_by(action, self.last, ts));
        assert((ts.origin, ts.loop_len) == loop_seen_by(action, self.last));
        match self.decide(action, shown, est, &ts) {
            Err(text) => Err(text),
            Ok(decision) => self.carry_out(decision),
        }
    }
}

// ---------------------------------------------------------------------------------------------
// From a snapshot to the window
// ---------------------------------------------------------------------------------------------

/// A list of gains cut or filled up with ones to a number of layers.
pub open spec fn fitted(gains: Seq<Single>, layers: nat) -> Seq<Single> {
    Seq::new(
        layers,
        |i: int|
            if i < gains.len() {
                gains[i]
            } else {
                Single { bits: UNITY }
            },
    )
}

/// How many layers a snapshot shows on a track.
pub open spec fn layers_shown(status: Status, track: int) -> nat {
    if track < status.shown().len() {
        status.shown()[track].layers as nat
    } else {
        0
    }
}

impl SessionModel {
    /// The session after a snapshot: a refusal is news where the counter moved or the reason changed,
    /// and the gain mirror gets the length the engine reports.
    pub open spec fn observed(self, status: Status) -> SessionModel {
        let news = status.ignored_commands > self.last_refusal.0 || status.refusal
            != self.last_refusal.1;
        SessionModel {
            stopped: self.stopped || status.stopped,
            message: if news && refusal_message(status.refusal) is Some {
                refusal_message(status.refusal)
            } else {
                self.message
            },
            last_refusal: if news {
                (status.ignored_commands, status.refusal)
            } else {
                self.last_refusal
            },
            tracks: Seq::new(
                self.tracks.len(),
                |t: int|
                    UiModel {
                        gains: fitted(self.tracks[t].gains, layers_shown(status, t)),
                        ..self.tracks[t]
                    },
            ),
            last: Some(status),
            ..self
        }
    }
}

/// Cut a list of gains, or fill it up with ones.
pub(crate) fn fit(gains: &mut Vec<Single>, layers: usize)
    ensures
        final(gains)@ == fitted(old(gains)@, layers as nat),
{
    let ghost before = gains@;
    while gains.len() < layers
        invariant
            before == old(gains)@,
            gains@.len() >= before.len(),
            gains@.len() <= layers || gains@.len() == before.len(),
            forall|i: int|
                0 <= i < gains@.len() ==> #[trigger] gains@[i] == (if i < before.len() {
                    before[i]
                } else {
                    Single { bits: UNITY }
                }),
        decreases layers - gains.len(),
    {
        gains.push(Single { bits: UNITY });
    }
    gains.truncate(layers);
    assert(gains@ =~= fitted(before, layers as nat));
}

impl Session {
    /// Take the newest snapshot over.
    pub fn observe(&mut self, status: Status)
        ensures
            final(self)@ == old(self)@.observed(status),
            final(self).cmd == old(self).cmd,
    {
        let ghost start = *old(self);
        if status.stopped {
            self.stopped = true;
        }
        if status.ignored_commands > self.last_refusal.0 || status.refusal != self.last_refusal.1 {
            if let Some(text) = status.refusal.message() {
                self.message = Some(text.to_owned());
            }
            self.last_refusal = (status.ignored_commands, status.refusal);
        }
        let ghost told = *self;
        let mut i: usize = 0;
        while i < self.tracks.len()
            invariant
                i <= self.tracks.len(),
                told.tracks@ == start.tracks@,
                self.tracks@.len() == start.tracks@.len(),
                *self == (Session { tracks: self.tracks, ..told }),
                forall|j: int|
                    0 <= j < i ==> (#[trigger] self.tracks@[j])@ == (UiModel {
                        gains: fitted(start.tracks@[j].gains@, layers_shown(status, j)),
                        ..start.tracks@[j]@
                    }),
                forall|j: int|
                    i <= j < start.tracks@.len() ==> #[trigger] self.tracks@[j] == start.tracks@[j],
            decreases self.tracks.len() - i,
        {
            let layers: usize = status.track(i).layers as usize;
            fit(&mut self.tracks[i].gains, layers);
            assert(self.tracks@[i as int]@ =~= (UiModel {
                gains: fitted(start.tracks@[i as int].gains@, layers_shown(status, i as int)),
                ..start.tracks@[i as int]@
            }));
            i = i + 1;
        }
        self.last = Some(status);
        assert(self@.tracks =~= start@.observed(status).tracks);
        assert(self@ =~= start@.observed(status));
    }
}

/// What the audio callbacks counted.
#[derive(Clone, Copy, Debug, PartialEq, Eq, Structural)]
pub struct Counters {
    /// Underruns the driver reported.
    pub xruns: u64,
    pub other_errors: u64,
    /// Output callbacks that found the input queue short.
    pub underruns: u64,
    /// Input callbacks that could not push.
    pub overruns: u64,
}

pub open spec fn lead_of(leads: Seq<Lead>, track: int) -> Lead {
    if track < leads.len() {
        leads[track]
    } else {
        Lead { kind: None, bars: 0, beats: 0 }
    }
}

/// Whether the window is told of a track what a snapshot shows of it.
pub open spec fn told_of(
    event: TrackStatusEvent,
    status: Status,
    track: int,
    ui: UiModel,
    lead: Lead,
) -> bool {
    exists|ts: TrackStatus| #[trigger]
        track_seen(Some(status), track, ts) && track_told(
            event,
            track as usize,
            ui.name,
            ts,
            ui.gains,
            lead,
        )
}

impl Session {
    /// What the window is told about a snapshot. `leads` says what each track is waiting for.
    pub fn event(&self, status: &Status, counters: Counters, leads: &Vec<Lead>) -> (r: StatusEvent)
        requires
            self@.wf(),
            status.bar < u64::MAX,
            status.beat < u32::MAX,
        ensures
            r.running,
            r.pos == status.pos,
            r.bar == status.bar + 1,
            r.beat == status.beat + 1,
            r.beat_offset == status.beat_offset,
            r.bpm == status.bpm,
            r.beats_per_bar == self.scheduler.timeline.metre().beats_per_bar,
            r.beat_unit == self.scheduler.timeline.metre().beat_unit,
            r.bars == self.scheduler.bars,
            r.loop_samples == self.scheduler.timeline.bar_at(self.scheduler.bars as int),
            r.quantize == grid_name(self.quantize),
            r.sample_rate == self.scheduler.timeline.rate(),
            r.latency_samples == self.latency_frames,
            r.click == status.click,
            r.output_peak == status.output_peak,
            r.output_peaks@ == seq![status.output_peak, status.output_peak],
            r.tracks@.len() == self.tracks@.len(),
            forall|t: int|
                0 <= t < self.tracks@.len() ==> told_of(
                    #[trigger] r.tracks@[t],
                    *status,
                    t,
                    self.tracks@[t]@,
                    lead_of(leads@, t),
                ),
            r.xruns == counters.xruns,
            r.fifo_underruns == counters.underruns,
            r.fifo_overruns == counters.overruns,
            r.other_errors == counters.other_errors,
            r.ignored_commands == status.ignored_commands,
            r.spares == status.spares,
            text_model(r.message) == self@.message,
    {
        let output_peaks: Vec<Single> = vec![status.output_peak, status.output_peak];
        assert(output_peaks@ =~= seq![status.output_peak, status.output_peak]);
        let mut tracks: Vec<TrackStatusEvent> = Vec::new();
        let mut i: usize = 0;
        while i < self.tracks.len()
            invariant
                i <= self.tracks.len(),
                tracks@.len() == i,
                forall|t: int|
                    0 <= t < i ==> told_of(
                        #[trigger] tracks@[t],
                        *status,
                        t,
                        self.tracks@[t]@,
                        lead_of(leads@, t),
                    ),
            decreases self.tracks.len() - i,
        {
            let ts: TrackStatus = status.track(i);
            let lead: Lead = if i < leads.len() {
                leads[i]
            } else {
                Lead::default()
            };
            let event = track_event(
                i,
                self.tracks[i].name.as_str(),
                &ts,
                &self.tracks[i].gains,
                lead,
            );
            assert(track_seen(Some(*status), i as int, ts));
            assert(told_of(event, *status, i as int, self.tracks@[i as int]@, lead_of(leads@, i as int)));
            tracks.push(event);
            i = i + 1;
        }
        let signature: TimeSignature = self.scheduler.timeline.signature();
        proof {
            use_type_invariant(&self.scheduler.timeline);
            the_first_beat_is_at_zero(self.scheduler.timeline);
        }
        StatusEvent {
            running: true,
            pos: status.pos,
            bar: status.bar + 1,
            beat: status.beat + 1,
            beat_offset: status.beat_offset,
            bpm: status.bpm,
            beats_per_bar: signature.beats_per_bar,
            beat_unit: signature.beat_unit,
            bars: self.scheduler.bars,
            loop_samples: self.scheduler.timeline.span_bars(0, self.scheduler.bars),
            quantize: QuantizeName::from(self.quantize),
            sample_rate: self.scheduler.timeline.sample_rate(),
            latency_samples: self.latency_frames as u64,
            click: status.click,
            output_peak: status.output_peak,
            output_peaks,
            tracks,
            xruns: counters.xruns,
            fifo_underruns: counters.underruns,
            fifo_overruns: counters.overruns,
            other_errors: counters.other_errors,
            ignored_commands: status.ignored_commands,
            spares: status.spares,
            message: match &self.message {
                Some(text) => Some(text.as_str().to_owned()),
                None => None,
            },
        }
    }
}

// ---------------------------------------------------------------------------------------------
// A score
// ---------------------------------------------------------------------------------------------

/// What a session needs to know of a compiled score.
#[derive(Debug)]
pub struct ScoreHead {
    pub title: String,
    pub bpm: Bpm,
    /// The tempo as it is written.
    pub shown: String,
    /// The tempo with one decimal.
    pub rounded: String,
    pub signature: TimeSignature,
    /// The metre as the score writes it.
    pub metre: String,
    pub sections: usize,
    /// Bars of the longest section.
    pub bars: u32,
}

/// The first track in a snapshot that holds something, among the first `n`.
pub open spec fn first_busy(shown: Seq<TrackStatus>, n: int) -> Option<int>
    decreases n,
{
    if n <= 0 {
        None
    } else {
        match first_busy(shown, n - 1) {
            Some(t) => Some(t),
            None => if n <= shown.len() && shown[n - 1].state != TrackState::Empty {
                Some(n - 1)
            } else {
                None
            },
        }
    }
}

/// Monitoring off, for every track.
pub open spec fn monitors_off(tracks: nat) -> Seq<Command> {
    Seq::new(tracks, |t: int| Command::SetMonitor { track: t as usize, on: false })
}

impl SessionModel {
    /// The first track that holds something.
    pub open spec fn occupied(self) -> Option<int> {
        match self.last {
            Some(status) => first_busy(status.shown(), self.tracks.len() as int),
            None => None,
        }
    }

    /// What a score changes of the grid, or the sentence that keeps it from being loaded. A score is
    /// only loaded onto an empty session: it plans every overdub against the loop geometry of the
    /// takes it sent itself, and a loop recorded by hand is invisible to it.
    pub open spec fn loading(self, bpm: Bpm, shown: Seq<char>, signature: TimeSignature, bars: u32) -> Result<
        (Command, Change),
        Seq<char>,
    > {
        if self.score_playing {
            Err(
                "Es laeuft schon eine Partitur. Erst \"Alles stoppen\" - ein Wechsel mitten im Lauf wuerde die schon armierten Kommandos im Audio-Thread stehen lassen, die keiner mehr zurueckholen kann."@,
            )
        } else {
            match self.occupied() {
                Some(t) => Err(
                    "Track "@ + quoted(self.tracks[t].name)
                        + " ist nicht leer. Eine Partitur wird nur auf eine leere Sitzung geladen - der Runner plant jeden Overdub gegen die Loop-Geometrie der Takes, die er selbst geschickt hat, und einen von Hand aufgenommenen Loop sieht er nicht. Erst \"Alles leeren\", dann laden."@,
                ),
                None => self.regridding(bpm, shown, signature, bars),
            }
        }
    }
}

/// The sentence about a loaded score.
pub open spec fn loaded_text(score: ScoreHead, count_in: u32) -> Seq<char> {
    "Partitur "@ + quoted(score.title@) + " geladen: "@ + decimal(score.sections as nat)
        + " Sektionen, "@ + score.rounded@ + " BPM, "@ + score.metre@ + ", laengste Sektion "@
        + decimal(
        if score.bars == 0 {
            1
        } else {
            score.bars as nat
        },
    ) + " Takte, "@ + decimal(count_in as nat) + (if count_in == 1 {
        " Takt Einzaehler."@
    } else {
        " Takte Einzaehler."@
    })
}

/// Whether a score has been loaded, refused with nothing changed, or got stuck because the audio
/// thread stopped consuming.
///
/// A queue that has room for every command of a load takes them all.
pub open spec fn loaded(
    before: Session,
    after: Session,
    score: ScoreHead,
    count_in: u32,
    r: Result<String, String>,
) -> bool {
    match before@.loading(score.bpm, score.shown@, score.signature, score.bars) {
        Err(text) => {
            &&& after@ == before@
            &&& after.cmd == before.cmd
            &&& r matches Err(e) && e@ == text
        },
        Ok((command, change)) => {
            let grid = Decided { commands: seq![command], message: None, change };
            let retimed = before@.done(grid);
            let off = monitors_off(before@.tracks.len());
            &&& room_used(before.cmd, after.cmd, 1 + off.len(), r is Ok)
            &&& match r {
                Ok(text) => text@ == loaded_text(score, count_in) && after@ == (SessionModel {
                    sent: retimed.sent + off,
                    message: Some(text@),
                    ..retimed
                }),
                Err(e) => {
                    &&& e@ == queue_full()
                    &&& after@ == before@.stuck(grid, 0) || exists|n: int|
                        0 <= n < off.len() && after@ == (SessionModel {
                            sent: retimed.sent + #[trigger] off.subrange(0, n),
                            ..retimed
                        })
                },
            }
        },
    }
}

impl Session {
    /// The first track that holds something.
    fn first_non_empty_track(&self) -> (r: Option<usize>)
        ensures
            match self@.occupied() {
                Some(t) => r matches Some(n) && n == t && t < self.tracks@.len(),
                None => r is None,
            },
    {
        match self.last {
            None => None,
            Some(status) => {
                let mut i: usize = 0;
                while i < self.tracks.len()
                    invariant
                        i <= self.tracks.len(),
                        self.last == Some(status),
                        first_busy(status.shown(), i as int) is None,
                    decreases self.tracks.len() - i,
                {
                    let ts: TrackStatus = status.track(i);
                    if ts.state != TrackState::Empty {
                        assert(first_busy(status.shown(), i + 1) == Some(i as int));
                        proof {
                            lemma_first_busy_stays(
                                status.shown(),
                                i + 1,
                                self.tracks@.len() as int,
                            );
                        }
                        return Some(i);
                    }
                    i = i + 1;
                }
                None
            },
        }
    }

    /// Load a compiled score onto this session: the grid comes from the score, and monitoring starts
    /// switched off everywhere, because the score switches it from now on.
    pub fn load_score(&mut self, score: &ScoreHead, count_in: u32) -> (r: Result<String, String>)
        requires
            old(self)@.wf(),
        ensures
            final(self)@.wf(),
            loaded(*old(self), *final(self), *score, count_in, r),
    {
        let ghost before = self@;
        if self.score_playing {
            return Err(
                "Es laeuft schon eine Partitur. Erst \"Alles stoppen\" - ein Wechsel mitten im Lauf wuerde die schon armierten Kommandos im Audio-Thread stehen lassen, die keiner mehr zurueckholen kann.".to_owned(),
            );
        }
        if let Some(busy) = self.first_non_empty_track() {
            let mut text = String::new();
            text.append("Track ");
            push_quoted(&mut text, self.tracks[busy].name.as_str());
            text.append(
                " ist nicht leer. Eine Partitur wird nur auf eine leere Sitzung geladen - der Runner plant jeden Overdub gegen die Loop-Geometrie der Takes, die er selbst geschickt hat, und einen von Hand aufgenommenen Loop sieht er nicht. Erst \"Alles leeren\", dann laden.",
            );
            proof {
                lemma_ui(self.tracks@, busy as int);
                let wanted = before.loading(score.bpm, score.shown@, score.signature, score.bars);
                assert(text@ =~= wanted->Err_0);
            }
            return Err(text);
        }
        let (command, change): (Command, Change) = match self.reconfigure(
            score.bpm,
            score.shown.as_str(),
            score.signature,
            score.bars,
        ) {
            Ok(grid) => grid,
            Err(text) => {
                return Err(text);
            },
        };
        let grid = Decision { commands: vec![command], message: None, change };
        let ghost decided = Decided { commands: seq![command], message: None, change };
        assert(grid@ =~= decided);
        match self.carry_out(grid) {
            Ok(()) => {},
            Err(text) => {
                return Err(text);
            },
        }
        let ghost retimed = before.done(decided);
        assert(self@ == retimed);
        assert(self.tracks@.len() == before.tracks.len());
        let ghost halfway = *self;
        let mut off: Vec<Command> = Vec::new();
        let mut track: usize = 0;
        while track < self.tracks.len()
            invariant
                track <= self.tracks.len(),
                self@ == retimed,
                *self == halfway,
                off@ == monitors_off(track as nat),
            decreases self.tracks.len() - track,
        {
            off.push(Command::SetMonitor { track, on: false });
            assert(off@ =~= monitors_off((track + 1) as nat));
            track = track + 1;
        }
        match self.send_all(&off) {
            Ok(()) => {},
            Err(text) => {
                return Err(text);
            },
        }
        let mut text = String::new();
        text.append("Partitur ");
        push_quoted(&mut text, score.title.as_str());
        text.append(" geladen: ");
        push_decimal(&mut text, score.sections as u64);
        text.append(" Sektionen, ");
        text.append(score.rounded.as_str());
        text.append(" BPM, ");
        text.append(score.metre.as_str());
        text.append(", laengste Sektion ");
        push_decimal(
            &mut text,
            if score.bars == 0 {
                1
            } else {
                score.bars as u64
            },
        );
        text.append(" Takte, ");
        push_decimal(&mut text, count_in as u64);
        text.append(
            if count_in == 1 {
                " Takt Einzaehler."
            } else {
                " Takte Einzaehler."
            },
        );
        assert(text@ =~= loaded_text(*score, count_in));
        self.message = Some(text.as_str().to_owned());
        Ok(text)
    }
}

/// The complaints about a score as one block: a heading, and a line for each.
pub open spec fn issues_text(issues: Seq<Seq<char>>, n: int) -> Seq<char>
    decreases n,
{
    if n <= 0 {
        "Die Partitur laesst sich nicht uebersetzen ("@ + decimal(issues.len()) + " Fehler):"@
    } else {
        issues_text(issues, n - 1) + "\n  "@ + issues[n - 1]
    }
}

/// Every complaint at once, for a caller with nowhere to put markers.
pub fn render_issues(issues: &Vec<String>) -> (r: String)
    ensures
        r@ == issues_text(texts(issues@), issues@.len() as int),
{
    let ghost all = texts(issues@);
    let mut r = String::new();
    r.append("Die Partitur laesst sich nicht uebersetzen (");
    push_decimal(&mut r, issues.len() as u64);
    r.append(" Fehler):");
    let mut i: usize = 0;
    assert(r@ =~= issues_text(all, 0));
    while i < issues.len()
        invariant
            all == texts(issues@),
            i <= issues.len(),
            r@ == issues_text(all, i as int),
        decreases issues.len() - i,
    {
        r.append("\n  ");
        r.append(issues[i].as_str());
        assert(all[i as int] == issues@[i as int]@);
        assert(r@ =~= issues_text(all, i + 1));
        i = i + 1;
    }
    r
}

proof fn lemma_first_busy_stays(shown: Seq<TrackStatus>, a: int, b: int)
    requires
        0 <= a <= b,
        first_busy(shown, a) is Some,
    ensures
        first_busy(shown, b) == first_busy(shown, a),
    decreases b,
{
    if a < b {
        lemma_first_busy_stays(shown, a, b - 1);
    }
}

/// How far a score is.
#[derive(Clone, Copy, Debug, PartialEq, Eq, Structural)]
pub enum Phase {
    /// Loaded and not started.
    Waiting,
    CountIn,
    Running,
    /// Stopped, or come to its end.
    Over,
}

impl Phase {
    /// Whether the score owns the transport: it has been started and is not over.
    pub open spec fn plays(self) -> bool {
        self == Phase::CountIn || self == Phase::Running
    }

    pub fn is_playing(self) -> (r: bool)
        ensures
            r == self.plays(),
    {
        matches!(self, Phase::CountIn | Phase::Running)
    }
}

/// What the score answers to a press of its transport: a German sentence, the commands that follow
/// from it, and how far it is then.
#[derive(Debug)]
pub struct ScoreReply {
    pub message: String,
    pub commands: Vec<Command>,
    pub phase: Phase,
}

impl Session {
    /// Hand the score's freshly produced commands to the engine, oldest first, up to the first that
    /// finds no room.
    pub fn pump_runner(&mut self, commands: &Vec<Command>)
        requires
            old(self)@.wf(),
        ensures
            final(self)@.wf(),
            pumped(old(self)@, final(self)@, commands@),
            room_used(
                old(self).cmd,
                final(self).cmd,
                commands@.len(),
                final(self)@.sent == old(self)@.sent + commands@,
            ),
    {
        if let Err(text) = self.send_all(commands) {
            self.message = Some(text);
        }
    }

    /// The score's turn of the control loop: the commands it has produced are handed to the engine,
    /// and the transport belongs to it as long as it plays. A score that has come to its end gives
    /// the transport back by itself.
    pub fn tick_score(&mut self, commands: &Vec<Command>, phase: Phase)
        requires
            old(self)@.wf(),
        ensures
            final(self)@.wf(),
            room_used(
                old(self).cmd,
                final(self).cmd,
                commands@.len(),
                final(self)@.sent == old(self)@.sent + commands@,
            ),
            exists|mid: SessionModel| #[trigger]
                pumped(old(self)@, mid, commands@) && final(self)@ == (SessionModel {
                    score_playing: phase.plays(),
                    ..mid
                }),
    {
        self.pump_runner(commands);
        let ghost mid = self@;
        self.score_playing = phase.is_playing();
        assert(pumped(old(self)@, mid, commands@));
    }

    /// One press of the score transport. `reply` is what the score answers, None where no score is
    /// loaded.
    pub fn score_act(&mut self, reply: Option<ScoreReply>) -> (r: Result<String, String>)
        requires
            old(self)@.wf(),
        ensures
            final(self)@.wf(),
            match reply {
                None => {
                    &&& r matches Err(e) && e@
                        == "Es ist keine Partitur geladen. Erst im Reiter \"Partitur\" eine laden."@
                    &&& final(self)@ == old(self)@
                    &&& final(self).cmd == old(self).cmd
                },
                Some(reply) => {
                    &&& r matches Ok(text) && text@ == reply.message@
                    &&& room_used(
                        old(self).cmd,
                        final(self).cmd,
                        reply.commands@.len(),
                        final(self)@.sent == old(self)@.sent + reply.commands@,
                    )
                    &&& exists|mid: SessionModel| #[trigger]
                        pumped(old(self)@, mid, reply.commands@) && final(self)@ == (SessionModel {
                            message: Some(reply.message@),
                            score_playing: reply.phase.plays(),
                            ..mid
                        })
                },
            },
    {
        match reply {
            None => Err(
                "Es ist keine Partitur geladen. Erst im Reiter \"Partitur\" eine laden.".to_owned(),
            ),
            Some(reply) => {
                self.pump_runner(&reply.commands);
                let ghost mid = self@;
                self.message = Some(reply.message.as_str().to_owned());
                self.score_playing = reply.phase.is_playing();
                assert(pumped(old(self)@, mid, reply.commands@));
                Ok(reply.message)
            },
        }
    }
}

/// Whether commands have been handed to the engine: all of them, or as many as found room, and then
/// the sentence about a full queue.
pub open spec fn pumped(before: SessionModel, after: SessionModel, commands: Seq<Command>) -> bool {
    ||| after == (SessionModel { sent: before.sent + commands, ..before })
    ||| exists|n: int|
        0 <= n < commands.len() && after == (SessionModel {
            sent: before.sent + #[trigger] commands.subrange(0, n),
            message: Some(queue_full()),
            ..before
        })
}

// ---------------------------------------------------------------------------------------------
// Laws
// ---------------------------------------------------------------------------------------------

/// A score that is over gives the transport back: after its last turn an action means what it means
/// in a session that no score plays in.
pub proof fn a_finished_score_frees_the_transport(
    before: SessionModel,
    mid: SessionModel,
    after: SessionModel,
    commands: Seq<Command>,
    phase: Phase,
    action: Action,
    shown: Seq<char>,
    est: u64,
    ts: TrackStatus,
)
    requires
        !phase.plays(),
        pumped(before, mid, commands),
        after == (SessionModel { score_playing: phase.plays(), ..mid }),
    ensures
        !after.score_playing,
        after.decision(action, shown, est, ts) == (SessionModel {
            score_playing: false,
            ..before
        }).decision(action, shown, est, ts),
{
}

/// While a score plays, the transport is closed: no action that moves a take is carried out.
pub proof fn a_playing_score_owns_the_transport(
    session: SessionModel,
    action: Action,
    shown: Seq<char>,
    est: u64,
    ts: TrackStatus,
)
    requires
        session.score_playing,
        action.shifts_takes(),
    ensures
        session.decision(action, shown, est, ts) is Err,
        (action.target() matches Some(track) ==> track < session.tracks.len())
            ==> session.decision(action, shown, est, ts) == Err::<Decided, Seq<char>>(
            transport_text(),
        ),
{
}

/// The mix stays the human's: an action that moves no take means the same whether a score plays or
/// not.
pub proof fn a_playing_score_leaves_the_mix_alone(
    session: SessionModel,
    action: Action,
    shown: Seq<char>,
    est: u64,
    ts: TrackStatus,
    playing: bool,
)
    requires
        !action.shifts_takes(),
    ensures
        (SessionModel { score_playing: playing, ..session }).decision(action, shown, est, ts)
            == session.decision(action, shown, est, ts),
{
}

/// Whether every command of a decision addresses one target.
pub open spec fn all_address(commands: Seq<Command>, target: Option<usize>) -> bool {
    forall|i: int| 0 <= i < commands.len() ==> (#[trigger] commands[i]).target() == target
}

proof fn lemma_transport_addresses(session: SessionModel, action: Action, est: u64, ts: TrackStatus)
    requires
        action is Record || action is Overdub || action is StopTrack || action is Play
            || action is ClearTrack || action is ClearAll,
    ensures
        all_address(session.transporting(action, est, ts).commands, action.target()),
{
    match action {
        Action::StopTrack { track } => {
            let plan = session.scheduler.stop_plan(track, est, ts.state);
            assert(all_address(plan, Some(track)));
        },
        _ => {},
    }
}

proof fn lemma_mix_addresses(session: SessionModel, action: Action, ts: TrackStatus)
    requires
        session.mixing(action, ts) is Ok,
    ensures
        all_address(session.mixing(action, ts)->Ok_0.commands, action.target()),
{
}

proof fn lemma_layer_addresses(session: SessionModel, action: Action, ts: TrackStatus)
    requires
        session.layering(action, ts) is Ok,
    ensures
        all_address(session.layering(action, ts)->Ok_0.commands, action.target()),
{
}

proof fn lemma_effect_addresses(session: SessionModel, action: Action)
    requires
        session.effecting(action) is Ok,
    ensures
        all_address(session.effecting(action)->Ok_0.commands, action.target()),
{
}

/// Every command an action leads to addresses the track of the action, or no track where the action
/// has none.
pub proof fn an_action_reaches_its_own_track_only(
    session: SessionModel,
    action: Action,
    shown: Seq<char>,
    est: u64,
    ts: TrackStatus,
)
    requires
        session.decision(action, shown, est, ts) is Ok,
    ensures
        all_address(session.decision(action, shown, est, ts)->Ok_0.commands, action.target()),
{
    match action {
        Action::Record { .. } | Action::Overdub { .. } | Action::StopTrack { .. } | Action::Play {
            ..
        } | Action::ClearTrack { .. } | Action::ClearAll => {
            lemma_transport_addresses(session, action, est, ts);
        },
        Action::LayerMute { .. } | Action::LayerRemove { .. } | Action::LayerGain { .. } => {
            lemma_layer_addresses(session, action, ts);
        },
        Action::FxBypass { .. } | Action::FxEnable { .. } | Action::FxParam { .. }
        | Action::FxPreset { .. } => {
            lemma_effect_addresses(session, action);
        },
        Action::SetTrackLatency { .. } | Action::SetTempo { .. } | Action::SetQuantize { .. } => {},
        _ => {
            lemma_mix_addresses(session, action, ts);
        },
    }
}

/// Switching a source off one bus keeps it on the other, and the switch does what it says.
pub proof fn one_bus_is_switched_alone(
    session: SessionModel,
    track: usize,
    source: TrackSource,
    bus: Bus,
    on: bool,
    shown: Seq<char>,
    est: u64,
    ts: TrackStatus,
    other: Bus,
)
    requires
        track < session.tracks.len(),
    ensures
        ({
            let r = session.decision(
                Action::SetTrackBus { track, source, bus, on },
                shown,
                est,
                ts,
            );
            &&& r matches Ok(decided)
            &&& decided.commands.len() == 1
            &&& decided.commands[0] matches Command::SetTrackSend { track: t, source: s, send }
            &&& t == track && s == source
            &&& send.feeds(bus) == on
            &&& other != bus ==> send.feeds(other) == send_seen(ts, source).feeds(other)
        }),
{
}

/// After a snapshot the mirror has one gain per layer the engine reports.
pub proof fn the_mirror_matches_the_engine(session: SessionModel, status: Status, track: int)
    requires
        0 <= track < session.tracks.len(),
    ensures
        session.observed(status).tracks[track].gains.len() == layers_shown(status, track),
        session.observed(status).tracks[track].name == session.tracks[track].name,
{
}

/// A refusal that has been said once is not said again: a snapshot that repeats the last one changes
/// no sentence.
pub proof fn a_refusal_is_news_once(session: SessionModel, status: Status)
    ensures
        session.observed(status).observed(status).message == session.observed(status).message,
{
}

proof fn lemma_worst_covers(global: int, latencies: Seq<TrackLatency>, track: int)
    requires
        0 <= track < latencies.len(),
    ensures
        latencies[track].resolved(global) <= worst_latency(global, latencies),
    decreases latencies.len(),
{
    if latencies.len() > 1 && track < latencies.len() - 1 {
        assert(latencies.drop_last()[track] == latencies[track]);
        lemma_worst_covers(global, latencies.drop_last(), track);
    }
}

proof fn lemma_worst_fits(global: u32, latencies: Seq<TrackLatency>)
    ensures
        0 <= worst_latency(global as int, latencies) <= 0x1_7fff_ffff,
    decreases latencies.len(),
{
    if latencies.len() > 1 {
        lemma_worst_fits(global, latencies.drop_last());
    }
}

/// Where a compensation is accepted, the loop outlasts that of every track, so no loop is overwritten
/// while it is still being written.
pub proof fn an_accepted_compensation_fits_the_loop(
    session: SessionModel,
    track: usize,
    latency: TrackLatency,
    t: int,
)
    requires
        track < session.tracks.len(),
        session.compensating(track, latency) is Ok,
        0 <= t < session.tracks.len(),
    ensures
        session.done(session.compensating(track, latency)->Ok_0).tracks[t].latency.resolved(
            session.latency_frames as int,
        ) < session.scheduler.timeline.bar_at(session.scheduler.bars as int),
{
    let list = latencies(session.tracks).update(track as int, latency);
    lemma_worst_covers(session.latency_frames as int, list, t);
    lemma_worst_fits(session.latency_frames, list);
    let after = session.done(session.compensating(track, latency)->Ok_0);
    assert(after.tracks[t].latency == list[t]);
}

/// Whether an action is open to a session: its track exists and no score holds the transport.
pub open spec fn open_to(session: SessionModel, action: Action) -> bool {
    &&& action.target() matches Some(track) ==> track < session.tracks.len()
    &&& action.shifts_takes() ==> !session.score_playing
}

/// An action on the transport that is open is carried out, and by commands of its own kind: a new
/// loop is recorded as one, a further layer is laid as one and neither clears nor replaces anything,
/// and playing and clearing are single commands.
pub proof fn a_transport_action_becomes_its_own_commands(
    session: SessionModel,
    action: Action,
    shown: Seq<char>,
    est: u64,
    ts: TrackStatus,
)
    requires
        open_to(session, action),
    ensures
        action matches Action::Record { track } ==> (session.decision(action, shown, est, ts)
            matches Ok(decided) && decided.commands.len() == 3 && decided.commands[0]
            is StartRecord && decided.commands[1] is StopRecord && decided.commands[2] is StartPlay
            && all_address(decided.commands, Some(track))),
        action matches Action::Overdub { track } ==> (session.decision(action, shown, est, ts)
            matches Ok(decided) && decided.commands.len() == 3 && decided.commands[0]
            is StartOverdub && decided.commands[1] is StopRecord && decided.commands[2]
            is StartPlay && all_address(decided.commands, Some(track)) && decided.change
            == Change::Nothing),
        action matches Action::Play { track } ==> (session.decision(action, shown, est, ts)
            matches Ok(decided) && decided.commands.len() == 1 && decided.commands[0] is StartPlay
            && all_address(decided.commands, Some(track)) && decided.change == Change::Nothing),
        action matches Action::ClearTrack { track } ==> (session.decision(action, shown, est, ts)
            matches Ok(decided) && decided.commands.len() == 1 && decided.commands[0] is ClearTrack
            && all_address(decided.commands, Some(track)) && decided.change
            == Change::ForgetGains(track)),
        action is ClearAll ==> (session.decision(action, shown, est, ts) matches Ok(decided)
            && decided.commands.len() == 1 && decided.commands[0] is ClearAll && decided.change
            == Change::ForgetAll),
{
}

/// Stopping a track that records closes the take and plays it; only an armed take is thrown away;
/// anything else is silenced. The gains of the layers stay known.
pub proof fn a_stop_keeps_what_was_recorded(
    session: SessionModel,
    track: usize,
    shown: Seq<char>,
    est: u64,
    ts: TrackStatus,
)
    requires
        open_to(session, Action::StopTrack { track }),
    ensures
        session.decision(Action::StopTrack { track }, shown, est, ts) matches Ok(decided) && (
        forall|i: int|
            0 <= i < decided.commands.len() ==> ((#[trigger] decided.commands[i]) is ClearTrack
                <==> ts.state == TrackState::Armed)) && (ts.state == TrackState::Recording
            || ts.state == TrackState::Overdub ==> decided.commands.len() == 2
            && decided.commands[0] is StopRecord && decided.commands[1] is StartPlay) && (ts.state
            == TrackState::Playing || ts.state == TrackState::Ready || ts.state
            == TrackState::Empty ==> decided.commands.len() == 1 && decided.commands[0]
            is StopPlay) && decided.change == Change::Nothing,
{
}

/// An action on the mix sends exactly the command that sets what it names, and is refused exactly
/// where the value lies outside its range.
pub proof fn a_mix_action_sends_its_own_command(
    session: SessionModel,
    action: Action,
    shown: Seq<char>,
    est: u64,
    ts: TrackStatus,
)
    requires
        open_to(session, action),
    ensures
        action matches Action::SetMonitor { track, on } ==> sends(
            session.decision(action, shown, est, ts),
            Command::SetMonitor { track, on },
        ),
        action matches Action::SetTrackSend { track, source, send } ==> sends(
            session.decision(action, shown, est, ts),
            Command::SetTrackSend { track, source, send },
        ),
        action matches Action::SetClick { on } ==> sends(
            session.decision(action, shown, est, ts),
            Command::SetClick { on },
        ),
        action matches Action::SetPan { track, pan } ==> if (Single { bits: 0xbf80_0000 }).le(pan)
            && pan.le(Single { bits: 0x3f80_0000 }) {
            sends(session.decision(action, shown, est, ts), Command::SetPan { track, pan })
        } else {
            session.decision(action, shown, est, ts) is Err
        },
        action matches Action::SetBusGain { bus, gain } ==> if (Single { bits: 0 }).le(gain)
            && gain.le(Single { bits: 0x4080_0000 }) {
            sends(session.decision(action, shown, est, ts), Command::SetBusGain { bus, gain })
        } else {
            session.decision(action, shown, est, ts) is Err
        },
        action matches Action::SetBusOutput { bus, out } ==> if out.width == 1 || out.width == 2 {
            sends(session.decision(action, shown, est, ts), Command::SetBusOutput { bus, out })
        } else {
            session.decision(action, shown, est, ts) is Err
        },
        action matches Action::FxBypass { track, on } ==> sends(
            session.decision(action, shown, est, ts),
            Command::SetFxBypass { track, on },
        ),
        action matches Action::FxEnable { track, slot, on } ==> sends(
            session.decision(action, shown, est, ts),
            Command::SetFxEnabled { track, slot, on },
        ),
        action matches Action::FxParam { track, param } ==> sends(
            session.decision(action, shown, est, ts),
            Command::SetFxParam { track, param },
        ),
        action matches Action::FxPreset { track, preset } ==> if preset == FxPreset::Custom {
            session.decision(action, shown, est, ts) is Err
        } else {
            sends(session.decision(action, shown, est, ts), Command::LoadFxPreset { track, preset })
        },
{
}

/// Whether an action was accepted with one command and no change on the control side.
pub open spec fn sends(r: Result<Decided, Seq<char>>, command: Command) -> bool {
    r matches Ok(decided) && decided.commands == seq![command] && decided.change == Change::Nothing
}

/// A layer is edited exactly where it exists, its track does not record and the gain lies in its
/// range; the command names the layer, and the mirror follows it.
pub proof fn a_layer_action_sends_its_own_command(
    session: SessionModel,
    track: usize,
    layer: usize,
    muted: bool,
    gain: Single,
    shown: Seq<char>,
    est: u64,
    ts: TrackStatus,
)
    requires
        track < session.tracks.len(),
    ensures
        ({
            let editable = layer < ts.layers && ts.state != TrackState::Recording && ts.state
                != TrackState::Overdub;
            let audible = (Single { bits: 0 }).le(gain) && gain.le(Single { bits: 0x4080_0000 });
            let mute = session.decision(
                Action::LayerMute { track, layer, muted },
                shown,
                est,
                ts,
            );
            let remove = session.decision(Action::LayerRemove { track, layer }, shown, est, ts);
            let louder = session.decision(Action::LayerGain { track, layer, gain }, shown, est, ts);
            &&& editable ==> sends(mute, Command::SetLayerMute { track, layer, muted })
            &&& editable ==> (remove matches Ok(decided) && decided.commands
                == seq![Command::RemoveLayer { track, layer }] && decided.change
                == Change::DropGain { track, layer })
            &&& editable && audible ==> (louder matches Ok(decided) && decided.commands
                == seq![Command::SetLayerGain { track, layer, gain }] && decided.change
                == Change::SetGain { track, layer, gain })
            &&& !editable ==> mute is Err && remove is Err && louder is Err
            &&& !audible ==> louder is Err
        }),
{
}

/// A compensation is accepted exactly where both its parts stay within two seconds at 48 kHz and the
/// loop outlasts the largest compensation of all tracks. Then the command carries it, and the
/// session remembers it for that track alone.
pub proof fn a_compensation_is_accepted_where_it_fits(
    session: SessionModel,
    track: usize,
    latency: TrackLatency,
    shown: Seq<char>,
    est: u64,
    ts: TrackStatus,
    t: int,
)
    requires
        track < session.tracks.len(),
        0 <= t < session.tracks.len(),
        session.scheduler.bars > 0,
    ensures
        ({
            let r = session.decision(
                Action::SetTrackLatency { track, latency },
                shown,
                est,
                ts,
            );
            let small = -96000 <= latency.trim <= 96000 && (latency.measured matches Some(frames)
                ==> frames <= 96000);
            let worst = worst_latency(
                session.latency_frames as int,
                latencies(session.tracks).update(track as int, latency),
            );
            let long = worst < session.scheduler.timeline.bar_at(session.scheduler.bars as int);
            &&& r is Ok <==> small && long
            &&& r matches Ok(decided) ==> decided.commands
                == seq![Command::SetTrackLatency { track, latency }]
            &&& r matches Ok(decided) ==> session.done(decided).tracks[t].latency == (if t
                == track {
                latency
            } else {
                session.tracks[t].latency
            })
        }),
{
    lemma_worst_fits(
        session.latency_frames,
        latencies(session.tracks).update(track as int, latency),
    );
}

/// The largest compensation is that of one of the tracks, and none is larger.
pub proof fn the_worst_compensation_is_the_largest(
    global: int,
    latencies: Seq<TrackLatency>,
    track: int,
)
    requires
        0 <= track < latencies.len(),
    ensures
        latencies[track].resolved(global) <= worst_latency(global, latencies),
        exists|t: int|
            0 <= t < latencies.len() && (#[trigger] latencies[t]).resolved(global) == worst_latency(
                global,
                latencies,
            ),
{
    lemma_worst_covers(global, latencies, track);
    lemma_worst_is_one_of_them(global, latencies);
}

proof fn lemma_worst_is_one_of_them(global: int, latencies: Seq<TrackLatency>)
    requires
        latencies.len() > 0,
    ensures
        exists|t: int|
            0 <= t < latencies.len() && (#[trigger] latencies[t]).resolved(global) == worst_latency(
                global,
                latencies,
            ),
    decreases latencies.len(),
{
    if latencies.len() == 1 {
        assert(latencies[0].resolved(global) == worst_latency(global, latencies));
    } else {
        let fewer = latencies.drop_last();
        lemma_worst_is_one_of_them(global, fewer);
        let t = choose|t: int|
            0 <= t < fewer.len() && (#[trigger] fewer[t]).resolved(global) == worst_latency(
                global,
                fewer,
            );
        assert(latencies[t] == fewer[t]);
        let last = latencies.len() - 1;
        assert(latencies[last as int] == latencies.last());
    }
}

/// What an accepted action leaves behind on the control side: its commands are sent last, its
/// sentence replaces the last one, and only what it names is forgotten or remembered.
pub proof fn an_accepted_action_is_remembered(session: SessionModel, decided: Decided, t: int)
    requires
        0 <= t < session.tracks.len(),
        sound(session, decided.change),
    ensures
        ({
            let after = session.done(decided);
            let before = session.tracks[t];
            let now = after.tracks[t];
            &&& after.sent == session.sent + decided.commands
            &&& after.tracks.len() == session.tracks.len()
            &&& decided.message matches Some(text) ==> after.message == Some(text)
            &&& decided.message is None ==> after.message == session.message
            &&& now.name == before.name
            &&& now.channels == before.channels
            &&& after.score_playing == session.score_playing
            &&& after.last == session.last
            &&& decided.change is Nothing ==> now == before
            &&& decided.change matches Change::ForgetGains(track) ==> now.gains == (if t == track {
                Seq::<Single>::empty()
            } else {
                before.gains
            })
            &&& decided.change is ForgetAll ==> now.gains.len() == 0 && now.latency
                == before.latency
            &&& decided.change matches Change::DropGain { track, layer } ==> (t != track
                ==> now.gains == before.gains) && (t == track && layer < before.gains.len()
                ==> now.gains == before.gains.remove(layer as int))
            &&& decided.change matches Change::SetGain { track, layer, gain } ==> (t != track
                ==> now.gains == before.gains) && (t == track && layer < before.gains.len()
                ==> now.gains == before.gains.update(layer as int, gain))
            &&& decided.change matches Change::Quantize(quantize) ==> after.quantize == quantize
                && now == before
            &&& decided.change matches Change::Retime { timeline, bars, layer_frames }
                ==> after.scheduler.timeline == timeline && after.scheduler.bars == bars
                && after.scheduler.guard == session.scheduler.guard && after.layer_frames
                == layer_frames && now == before
            &&& !(decided.change is Quantize) ==> after.quantize == session.quantize
            &&& !(decided.change is Retime) ==> after.scheduler == session.scheduler
        }),
{
}

/// Another grid for takes is taken over without a command, and another tempo with exactly one: it
/// carries the tempo and the metre, and is refused while a track holds something.
pub proof fn a_new_grid_is_announced(
    session: SessionModel,
    bpm: Bpm,
    signature: TimeSignature,
    quantize: Quantize,
    shown: Seq<char>,
    est: u64,
    ts: TrackStatus,
)
    requires
        !session.score_playing,
    ensures
        session.decision(Action::SetQuantize { quantize }, shown, est, ts) matches Ok(decided)
            && decided.commands.len() == 0 && decided.change == Change::Quantize(quantize),
        ({
            let r = session.decision(
                Action::SetTempo {
                    bpm,
                    beats_per_bar: signature.beats_per_bar,
                    beat_unit: signature.beat_unit,
                },
                shown,
                est,
                ts,
            );
            &&& busy_seen(session.last) ==> r is Err
            &&& r matches Ok(decided) ==> {
                &&& decided.commands.len() == 1
                &&& decided.commands[0] matches Command::SetTempo {
                    bpm: b,
                    signature: s,
                    layer_capacity,
                }
                &&& b == bpm
                &&& s == signature
                &&& decided.change matches Change::Retime { timeline, bars, layer_frames }
                &&& timeline == session.scheduler.timeline.retimed(bpm, signature)
                &&& bars >= 1
                &&& session.scheduler.bars > 0 ==> bars == session.scheduler.bars
                &&& layer_frames == layer_capacity
            }
        }),
{
}

/// A snapshot is mirrored: the first layers keep the gain that was set, a layer that is new has a
/// gain of one, a refusal that is news is said, and a stopped engine stays stopped.
pub proof fn a_snapshot_is_mirrored(session: SessionModel, status: Status, track: int, layer: int)
    requires
        0 <= track < session.tracks.len(),
        0 <= layer < layers_shown(status, track),
    ensures
        ({
            let after = session.observed(status);
            let gains = session.tracks[track].gains;
            &&& layer < gains.len() ==> after.tracks[track].gains[layer] == gains[layer]
            &&& layer >= gains.len() ==> after.tracks[track].gains[layer].bits == 0x3f80_0000
            &&& after.tracks[track].latency == session.tracks[track].latency
            &&& after.last == Some(status)
            &&& after.stopped <==> session.stopped || status.stopped
            &&& after.sent == session.sent
            &&& status.ignored_commands > session.last_refusal.0 && refusal_message(status.refusal)
                is Some ==> after.message == refusal_message(status.refusal)
            &&& status.ignored_commands <= session.last_refusal.0 && status.refusal
                == session.last_refusal.1 ==> after.message == session.message
            &&& refusal_message(status.refusal) is None ==> after.message == session.message
        }),
{
}

proof fn lemma_first_busy_is_busy(shown: Seq<TrackStatus>, n: int)
    ensures
        first_busy(shown, n) matches Some(t) ==> 0 <= t < n && t < shown.len() && shown[t].state
            != TrackState::Empty && (forall|k: int|
            0 <= k < t ==> (#[trigger] shown[k]).state == TrackState::Empty),
        first_busy(shown, n) is None ==> (forall|k: int|
            0 <= k < n && k < shown.len() ==> (#[trigger] shown[k]).state == TrackState::Empty),
    decreases n,
{
    if n > 0 {
        lemma_first_busy_is_busy(shown, n - 1);
    }
}

/// A score is loaded only while none plays and every track is empty; then its tempo and its metre go
/// to the engine, and the grid follows.
pub proof fn a_score_is_loaded_onto_an_empty_session(
    session: SessionModel,
    bpm: Bpm,
    shown: Seq<char>,
    signature: TimeSignature,
    bars: u32,
    status: Status,
    t: int,
)
    requires
        session.last == Some(status),
        0 <= t < session.tracks.len(),
    ensures
        session.score_playing ==> session.loading(bpm, shown, signature, bars) is Err,
        t < status.shown().len() && status.shown()[t].state != TrackState::Empty
            ==> session.loading(bpm, shown, signature, bars) is Err,
        session.loading(bpm, shown, signature, bars) matches Ok((command, change)) ==> {
            &&& command matches Command::SetTempo { bpm: b, signature: s, layer_capacity }
            &&& b == bpm
            &&& s == signature
            &&& change matches Change::Retime { timeline, bars: n, layer_frames }
            &&& timeline == session.scheduler.timeline.retimed(bpm, signature)
            &&& n >= 1 && (bars > 0 ==> n == bars)
            &&& layer_frames == layer_capacity
        },
{
    lemma_first_busy_is_busy(status.shown(), session.tracks.len() as int);
}

/// The first track that holds something is the one that is named, and where none does none is.
pub proof fn the_first_busy_track_is_named(session: SessionModel, status: Status, t: int)
    requires
        session.last == Some(status),
        0 <= t < session.tracks.len(),
        t < status.shown().len(),
    ensures
        session.occupied() is None ==> status.shown()[t].state == TrackState::Empty,
        session.occupied() matches Some(k) ==> 0 <= k < session.tracks.len()
            && status.shown()[k].state != TrackState::Empty && (t < k ==> status.shown()[t].state
            == TrackState::Empty),
{
    lemma_first_busy_is_busy(status.shown(), session.tracks.len() as int);
}

/// A score starts with every monitoring off, and owns the transport from its count-in to its end.
pub proof fn a_score_starts_unmonitored(tracks: nat, t: int, phase: Phase)
    requires
        0 <= t < tracks <= usize::MAX,
    ensures
        monitors_off(tracks).len() == tracks,
        monitors_off(tracks)[t] == (Command::SetMonitor { track: t as usize, on: false }),
        phase.plays() <==> phase == Phase::CountIn || phase == Phase::Running,
{
}

/// Commands of a score go out in order: all of them, or as many as found room and then the sentence
/// about a full queue. Nothing else of the session changes.
pub proof fn a_score_sends_its_commands_in_order(
    before: SessionModel,
    after: SessionModel,
    commands: Seq<Command>,
)
    requires
        pumped(before, after, commands),
    ensures
        before.sent.is_prefix_of(after.sent),
        after.sent.is_prefix_of(before.sent + commands),
        after.sent == before.sent + commands || after.message == Some(queue_full()),
        after.tracks == before.tracks,
        after.scheduler == before.scheduler,
        after.score_playing == before.score_playing,
        after.last == before.last,
{
    if after != (SessionModel { sent: before.sent + commands, ..before }) {
        let n = choose|n: int|
            0 <= n < commands.len() && after == (SessionModel {
                sent: before.sent + #[trigger] commands.subrange(0, n),
                message: Some(queue_full()),
                ..before
            });
        assert(after.sent == before.sent + commands.subrange(0, n));
    }
}

/// A refused action changes nothing at all; one that is carried out is done as decided; one that
/// meets a full queue has sent the first of its commands at most.
pub proof fn an_action_is_answered_as_decided(
    before: Session,
    after: Session,
    wanted: Result<Decided, Seq<char>>,
    r: Result<(), String>,
)
    requires
        answered(before, after, wanted, r),
    ensures
        wanted is Err ==> after@ == before@ && r is Err,
        wanted matches Ok(decided) ==> (r is Ok ==> after@ == before@.done(decided)),
        wanted matches Ok(decided) ==> (before.cmd.room() >= decided.commands.len() ==> r is Ok),
        wanted matches Ok(decided) ==> (r is Err ==> before@.sent.is_prefix_of(after@.sent)
            && after@.sent.len() < before@.sent.len() + decided.commands.len()),
{
    if let Ok(decided) = wanted {
        if r is Err {
            let n = choose|n: int|
                0 <= n < decided.commands.len() && after@ == #[trigger] before@.stuck(decided, n);
            assert(after@.sent == before@.sent + decided.commands.subrange(0, n));
        }
    }
}

/// The session knows of a track what the newest snapshot shows, and of one that none shows that it is
/// fresh.
pub proof fn a_track_is_seen_as_it_is_shown(last: Option<Status>, track: int, ts: TrackStatus)
    requires
        0 <= track,
        track_seen(last, track, ts),
    ensures
        last matches Some(status) ==> (track < status.shown().len() ==> ts == status.shown()[track]),
        last is None ==> ts.state == TrackState::Empty && ts.layers == 0 && ts.loop_len == 0,
        last matches Some(status) ==> (track >= status.shown().len() ==> ts.state
            == TrackState::Empty && ts.layers == 0 && ts.loop_len == 0),
{
}

/// Which half of the routing of a track is meant: that of its loop or that of its monitored input.
pub proof fn each_source_has_its_own_send(ts: TrackStatus)
    ensures
        send_seen(ts, TrackSource::Loop) == ts.loop_send,
        send_seen(ts, TrackSource::Monitor) == ts.monitor_send,
{
}

/// What is said of a layer names it as the musician counts, from one, and says whether it is heard.
pub proof fn a_layer_is_named_as_it_is_counted(
    session: SessionModel,
    track: usize,
    layer: usize,
    muted: bool,
    shown: Seq<char>,
    est: u64,
    ts: TrackStatus,
)
    requires
        track < session.tracks.len(),
        layer < ts.layers,
        ts.state != TrackState::Recording,
        ts.state != TrackState::Overdub,
    ensures
        ({
            let mute = session.decision(
                Action::LayerMute { track, layer, muted },
                shown,
                est,
                ts,
            );
            let remove = session.decision(Action::LayerRemove { track, layer }, shown, est, ts);
            let number = decimal((layer + 1) as nat);
            &&& holds(mute->Ok_0.message->0, number)
            &&& holds(remove->Ok_0.message->0, number)
            &&& holds(
                mute->Ok_0.message->0,
                if muted {
                    "stumm"@
                } else {
                    "wieder hoerbar"@
                },
            )
        }),
{
    let number = decimal((layer + 1) as nat);
    let front = quoted(session.name(track)) + ": "@ + "Ebene "@;
    let word = if muted {
        "stumm"@
    } else {
        "wieder hoerbar"@
    };
    what_is_put_between_stands_there(front, number, " entfernt."@);
    what_is_put_between_stands_there(front, number, " "@ + word + "."@);
    what_is_put_between_stands_there(front + number + " "@, word, "."@);
    let text = front + number + " "@ + word + "."@;
    assert(front + number + (" "@ + word + "."@) =~= text);
    assert(session.decision(
        Action::LayerMute { track, layer, muted },
        shown,
        est,
        ts,
    )->Ok_0.message->0 == text);
}

/// What is said of a switch names the track, and says on where it was switched on and off where it
/// was switched off.
pub proof fn a_switch_is_told_as_it_stands(
    session: SessionModel,
    track: usize,
    slot: FxSlot,
    on: bool,
    shown: Seq<char>,
    est: u64,
    ts: TrackStatus,
)
    requires
        track < session.tracks.len(),
    ensures
        ({
            let word = if on {
                "an"@
            } else {
                "aus"@
            };
            let monitor = session.decision(Action::SetMonitor { track, on }, shown, est, ts);
            let click = session.decision(Action::SetClick { on }, shown, est, ts);
            let effect = session.decision(Action::FxEnable { track, slot, on }, shown, est, ts);
            let chain = session.decision(Action::FxBypass { track, on }, shown, est, ts);
            &&& holds(monitor->Ok_0.message->0, word)
            &&& holds(click->Ok_0.message->0, word)
            &&& holds(effect->Ok_0.message->0, word)
            &&& holds(effect->Ok_0.message->0, slot_label(slot))
            &&& holds(
                chain->Ok_0.message->0,
                if on {
                    "umgangen"@
                } else {
                    "aktiv"@
                },
            )
        }),
{
    let word = if on {
        "an"@
    } else {
        "aus"@
    };
    let front = quoted(session.name(track)) + ": "@;
    what_is_put_between_stands_there(front + "Mithoeren "@, word, "."@);
    what_is_put_between_stands_there("Klick "@, word, "."@);
    what_is_put_between_stands_there(front + slot_label(slot) + " "@, word, "."@);
    what_is_put_between_stands_there(front, slot_label(slot), " "@ + word + "."@);
    assert(front + slot_label(slot) + (" "@ + word + "."@) =~= front + slot_label(slot) + " "@
        + word + "."@);
    what_is_put_between_stands_there(
        front + "Effektkette "@,
        if on {
            "umgangen"@
        } else {
            "aktiv"@
        },
        "."@,
    );
}

/// A grid is confirmed by its own name.
pub proof fn grids_are_confirmed_by_name(quantize: Quantize)
    ensures
        holds(
            quantize_text(quantize),
            match quantize {
                Quantize::Bar => "Takt"@,
                Quantize::Loop => "Loop"@,
            },
        ),
{
    reveal_strlit("Aufnahmen beginnen am naechsten Takt.");
    reveal_strlit("Aufnahmen beginnen am naechsten Loop-Anfang.");
    reveal_strlit("Takt");
    reveal_strlit("Loop");
    assert("Aufnahmen beginnen am naechsten Takt."@.len() == 37);
    assert("Aufnahmen beginnen am naechsten Loop-Anfang."@.len() == 44);
    assert("Takt"@.len() == 4);
    assert("Loop"@.len() == 4);
    assert("Aufnahmen beginnen am naechsten Takt."@.subrange(32, 36) =~= "Takt"@);
    assert("Aufnahmen beginnen am naechsten Loop-Anfang."@.subrange(32, 36) =~= "Loop"@);
    assert(stands_at("Aufnahmen beginnen am naechsten Takt."@, "Takt"@, 32));
    assert(stands_at("Aufnahmen beginnen am naechsten Loop-Anfang."@, "Loop"@, 32));
}

/// The position is estimated from the last snapshot: it runs on from there at the sample rate, and
/// never falls behind it.
pub proof fn the_estimate_runs_on_from_the_snapshot(session: Session, nanos: u64, later: u64)
    requires
        nanos <= later,
        session.scheduler.timeline.rate() >= 0,
    ensures
        session.last is None ==> session.estimate(nanos) == 0,
        session.last matches Some(status) ==> session.estimate(0) == status.pos
            && session.estimate(nanos) >= status.pos && session.estimate(nanos)
            <= session.estimate(later),
        session.last matches Some(status) ==> session.estimate(nanos) - status.pos == samples_in(
            nanos as int,
            session.scheduler.timeline.rate(),
        ),
{
    let rate = session.scheduler.timeline.rate();
    assert(0int * rate == 0) by (nonlinear_arith);
    assert(0 <= nanos * rate <= later * rate) by (nonlinear_arith)
        requires
            0 <= nanos <= later,
            rate >= 0,
    ;
    vstd::arithmetic::div_mod::lemma_div_is_ordered(0, nanos * rate, 1_000_000_000);
    vstd::arithmetic::div_mod::lemma_div_is_ordered(nanos * rate, later * rate, 1_000_000_000);
}

/// An action for a track goes by the loop of that track, as the last snapshot shows it.
pub proof fn an_action_goes_by_the_loop_of_its_track(action: Action, status: Status, track: usize)
    requires
        action.target() == Some(track),
        track < status.shown().len(),
    ensures
        loop_seen_by(action, Some(status)) == (
            status.shown()[track as int].origin,
            status.shown()[track as int].loop_len,
        ),
        loop_seen_by(action, None) == (0u64, 0u64),
{
}

} // verus!
