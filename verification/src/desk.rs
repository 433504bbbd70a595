//! From a resolved MIDI event into the session.
//!
//! A pad uses exactly the two doors a mouse click uses, which is what makes "a pad can do what a
//! mouse can do, and no more" true by construction.
use vstd::prelude::*;
use vstd::string::*;
use crate::action::{clicked, intent_of, Action, MidiIntent, ScoreAction};
use crate::bridge::{learnt, pushed, report_of, BridgeModel, MidiBridge};
use crate::command::{Command, TrackState, TrackStatus};
use crate::host::{
    a_transport_action_becomes_its_own_commands,
    answered,
    seen_by,
    workable,
    Session,
    SessionModel,
};
use crate::mapping::Binding;
use crate::midi::{text_model, MidiAction, MidiEvent, MidiEventReport, MidiOutcome};
use crate::model::{a_further_layer_keeps_the_others, EngineModel};

verus! {

/// What a binding made of an event.
#[derive(Debug)]
pub enum Resolution {
    Unbound,
    /// Correctly did nothing, and why.
    Absorbed(String),
    /// Not allowed right now, and why.
    Refused(String),
    Action(MidiAction),
}

/// Where a resolved action goes on.
#[derive(Clone, Copy, Debug, PartialEq, Eq, Structural)]
pub enum Routed {
    /// It has been carried out.
    Done,
    /// It belongs to the score, which answers with a sentence.
    Score(ScoreAction),
}

/// Whether a session has answered an action, as it would have answered a click.
pub open spec fn carried_out(
    before: Session,
    after: Session,
    what: Action,
    shown: Seq<char>,
    nanos: u64,
    answer: Result<(), String>,
) -> bool {
    exists|ts: TrackStatus|
        {
            &&& #[trigger] seen_by(what, before.last, ts)
            &&& answered(
                before,
                after,
                before@.decision(what, shown, before.estimate(nanos) as u64, ts),
                answer,
            )
        }
}

impl SessionModel {
    /// The measured half of the compensation that a knob on the surcharge has to keep.
    pub open spec fn measured_for(self, action: MidiAction) -> Option<u32> {
        match action {
            MidiAction::LatencyTrim { track, .. } => if track < self.tracks.len() {
                self.tracks[track as int].latency.measured
            } else {
                None
            },
            _ => None,
        }
    }

    /// What an action means in this session.
    pub open spec fn intent(self, action: MidiAction) -> MidiIntent {
        clicked(action, self.scheduler.timeline.metre(), self.measured_for(action))
    }
}

impl Session {
    /// What a resolved action means here.
    pub fn intend(&self, action: MidiAction) -> (r: MidiIntent)
        ensures
            r == self@.intent(action),
    {
        let measured: Option<u32> = match action {
            MidiAction::LatencyTrim { track, .. } => if track < self.tracks.len() {
                self.tracks[track].latency.measured
            } else {
                None
            },
            _ => None,
        };
        intent_of(action, self.scheduler.timeline.signature(), measured)
    }

    /// Carry a resolved action out, or say that it belongs to the score. `shown` is a tempo as it is
    /// written, `nanos` the time since the newest snapshot.
    pub fn route(&mut self, action: MidiAction, shown: &str, nanos: u64) -> (r: Result<
        Routed,
        String,
    >)
        requires
            old(self)@.wf(),
            old(self)@.intent(action) matches MidiIntent::Session(what) ==> workable(
                *old(self),
                what,
                nanos,
            ),
        ensures
            final(self)@.wf(),
            match old(self)@.intent(action) {
                MidiIntent::Score(what) => {
                    &&& r == Ok::<Routed, String>(Routed::Score(what))
                    &&& final(self)@ == old(self)@
                    &&& final(self).cmd == old(self).cmd
                },
                MidiIntent::Session(what) => {
                    &&& r matches Ok(routed) ==> routed == Routed::Done
                    &&& carried_out(
                        *old(self),
                        *final(self),
                        what,
                        shown@,
                        nanos,
                        match r {
                            Ok(_) => Ok(()),
                            Err(text) => Err(text),
                        },
                    )
                },
            },
    {
        match self.intend(action) {
            MidiIntent::Score(what) => Ok(Routed::Score(what)),
            MidiIntent::Session(what) => {
                match self.apply(what, shown, nanos) {
                    Ok(()) => Ok(Routed::Done),
                    Err(text) => Err(text),
                }
            },
        }
    }
}

/// What is told about an event: what became of it, and the sentence that goes with it. `answer` is
/// what the session or the score said to its action.
pub open spec fn told(resolution: Resolution, answer: Option<Result<Option<Seq<char>>, Seq<char>>>) -> (
    MidiOutcome,
    Option<Seq<char>>,
) {
    match resolution {
        Resolution::Unbound => (MidiOutcome::Unbound, None),
        Resolution::Absorbed(reason) => (MidiOutcome::Absorbed, Some(reason@)),
        Resolution::Refused(reason) => (MidiOutcome::Refused, Some(reason@)),
        Resolution::Action(_) => match answer {
            Some(Ok(message)) => (MidiOutcome::Action, message),
            Some(Err(text)) => (MidiOutcome::Refused, Some(text)),
            None => (MidiOutcome::Refused, Some("Die Engine laeuft nicht. Erst starten."@)),
        },
    }
}

pub open spec fn answer_model(answer: Option<Result<Option<String>, String>>) -> Option<
    Result<Option<Seq<char>>, Seq<char>>,
> {
    match answer {
        Some(Ok(message)) => Some(Ok(text_model(message))),
        Some(Err(text)) => Some(Err(text@)),
        None => None,
    }
}

/// A bridge that has told about an event.
pub open spec fn settled(
    before: BridgeModel,
    event: MidiEvent,
    resolution: Resolution,
    answer: Option<Result<Option<Seq<char>>, Seq<char>>>,
) -> BridgeModel {
    let (outcome, note) = told(resolution, answer);
    let bound = !(resolution is Unbound) && before.in_effect().contains_key(event.control());
    BridgeModel {
        seq: before.next_seq(),
        pending: pushed(
            before.pending,
            report_of(
                before.next_seq(),
                event,
                outcome,
                if bound {
                    Some(before.in_effect()[event.control()].address)
                } else {
                    None
                },
                if bound {
                    Some(before.in_effect()[event.control()].label)
                } else {
                    None
                },
                note,
            ),
        ),
        ..before
    }
}

/// Whom an event is for.
#[derive(Debug)]
pub enum Met {
    /// The learn mode swallows the stream: while it waits for a control, that control must not also
    /// do its old job on the way in. With the report about what was learned.
    Learning(Option<MidiEventReport>),
    /// It is to be resolved against the mapping.
    Mapping,
}

/// What became of an event that was resolved.
#[derive(Clone, Copy, Debug, PartialEq, Eq, Structural)]
pub enum Served {
    /// The window has been told. `rearm` says that every knob has to catch its parameter again.
    Told { rearm: bool },
    /// The score has to answer first.
    Score(ScoreAction),
}

impl MidiBridge {
    /// Take an event in. A learning bridge gets it, and nothing else does; any other leaves it to
    /// the mapping.
    pub fn meet(&mut self, event: &MidiEvent, message: String, path: &str) -> (r: Met)
        requires
            old(self).wf(),
        ensures
            final(self).wf(),
            match old(self).model().learning {
                Some(binding) => r matches Met::Learning(report) && learnt(
                    *old(self),
                    *final(self),
                    *event,
                    binding,
                    message@,
                    path@,
                    report,
                ),
                None => r is Mapping && *final(self) == *old(self),
            },
    {
        if self.is_learning() {
            Met::Learning(self.feed_learn(event, message, path))
        } else {
            Met::Mapping
        }
    }

    /// Do what an event was resolved to, and tell the window about it. Only a bridge that is not
    /// learning comes this far. Without a session, an action is answered with the sentence that
    /// says so.
    pub fn serve(
        &mut self,
        session: &mut Option<Session>,
        event: &MidiEvent,
        resolution: Resolution,
        shown: &str,
        nanos: u64,
    ) -> (r: Served)
        requires
            old(self).wf(),
            old(self).model().learning is None,
            *old(session) matches Some(active) ==> active@.wf(),
            *old(session) matches Some(active) ==> (resolution matches Resolution::Action(action)
                ==> (active@.intent(action) matches MidiIntent::Session(what) ==> workable(
                active,
                what,
                nanos,
            ))),
        ensures
            final(self).wf(),
            *final(session) matches Some(active) ==> active@.wf(),
            *final(session) is Some <==> *old(session) is Some,
            match (resolution, *old(session)) {
                (Resolution::Action(action), Some(before)) => match before@.intent(action) {
                    MidiIntent::Score(what) => {
                        &&& r == Served::Score(what)
                        &&& *final(self) == *old(self)
                        &&& (*final(session))->0@ == before@
                        &&& (*final(session))->0.cmd == before.cmd
                    },
                    MidiIntent::Session(what) => exists|answer: Result<(), String>|
                        {
                            &&& #[trigger] carried_out(
                                before,
                                (*final(session))->0,
                                what,
                                shown@,
                                nanos,
                                answer,
                            )
                            &&& r == Served::Told { rearm: action is FxPreset && answer is Ok }
                            &&& final(self).model() == settled(
                                old(self).model(),
                                *event,
                                resolution,
                                Some(
                                    match answer {
                                        Ok(()) => Ok(None),
                                        Err(text) => Err(text@),
                                    },
                                ),
                            )
                        },
                },
                _ => {
                    &&& r == (Served::Told { rearm: false })
                    &&& *final(session) == *old(session)
                    &&& final(self).model() == settled(
                        old(self).model(),
                        *event,
                        resolution,
                        None,
                    )
                },
            },
    {
        let ghost before = *old(session);
        if let Resolution::Action(action) = &resolution {
            let action: MidiAction = *action;
            if let Some(active) = session {
                return match active.route(action, shown, nanos) {
                    Ok(Routed::Score(what)) => Served::Score(what),
                    Ok(Routed::Done) => {
                        assert(carried_out(
                            before->0,
                            *active,
                            before->0@.intent(action)->Session_0,
                            shown@,
                            nanos,
                            Ok(()),
                        ));
                        Served::Told { rearm: self.settle(event, resolution, Some(Ok(None))) }
                    },
                    Err(text) => {
                        assert(carried_out(
                            before->0,
                            *active,
                            before->0@.intent(action)->Session_0,
                            shown@,
                            nanos,
                            Err(text),
                        ));
                        Served::Told { rearm: self.settle(event, resolution, Some(Err(text))) }
                    },
                };
            }
        }
        Served::Told { rearm: self.settle(event, resolution, None) }
    }

    /// Tell the window about an event. `answer` is what became of its action, None where nothing runs
    /// that could have carried it out. An event without a binding has no target; every other one
    /// names what its control is bound to. The result is whether every knob has to catch its
    /// parameter again: a preset moves them all at once.
    pub fn settle(
        &mut self,
        event: &MidiEvent,
        resolution: Resolution,
        answer: Option<Result<Option<String>, String>>,
    ) -> (rearm: bool)
        requires
            old(self).wf(),
        ensures
            final(self).wf(),
            rearm == (resolution matches Resolution::Action(action) && action is FxPreset
                && answer matches Some(Ok(_))),
            final(self).model() == settled(
                old(self).model(),
                *event,
                resolution,
                answer_model(answer),
            ),
    {
        let target: Option<Binding> = match self.target_of(event) {
            Some(binding) => Some(binding.copied()),
            None => None,
        };
        let (outcome, note, rearm): (MidiOutcome, Option<String>, bool) = match resolution {
            Resolution::Unbound => {
                self.report(event, MidiOutcome::Unbound, None, None);
                return false;
            },
            Resolution::Absorbed(reason) => (MidiOutcome::Absorbed, Some(reason), false),
            Resolution::Refused(reason) => (MidiOutcome::Refused, Some(reason), false),
            Resolution::Action(action) => match answer {
                Some(Ok(message)) => (
                    MidiOutcome::Action,
                    message,
                    matches!(action, MidiAction::FxPreset { .. }),
                ),
                Some(Err(text)) => (MidiOutcome::Refused, Some(text), false),
                None => (
                    MidiOutcome::Refused,
                    Some("Die Engine laeuft nicht. Erst starten.".to_owned()),
                    false,
                ),
            },
        };
        match &target {
            Some(binding) => {
                self.report(event, outcome, Some(binding), note);
            },
            None => {
                self.report(event, outcome, None, note);
            },
        }
        rearm
    }
}

// ---------------------------------------------------------------------------------------------
// Laws
// ---------------------------------------------------------------------------------------------

/// A pad meets the same refusal as a click: while a score plays, no MIDI action that moves the
/// transport is carried out by the session.
pub proof fn a_pad_cannot_pass_a_playing_score(
    session: SessionModel,
    action: MidiAction,
    shown: Seq<char>,
    est: u64,
    ts: TrackStatus,
)
    requires
        session.score_playing,
        action.shifts_takes(),
    ensures
        session.intent(action) matches MidiIntent::Session(what) && session.decision(
            what,
            shown,
            est,
            ts,
        ) is Err,
{
}

/// A pad for a further layer is one from end to end: its commands open a layer and no new loop, and
/// whichever of them the engine has carried out, every layer the track held is still there. So it
/// can never remove one.
pub proof fn a_pad_for_a_layer_removes_none(
    session: SessionModel,
    track: usize,
    shown: Seq<char>,
    est: u64,
    ts: TrackStatus,
    m: EngineModel,
    i: int,
    layer: int,
)
    requires
        !session.score_playing,
        track < session.tracks.len(),
        track < m.tracks.len(),
        m.tracks[track as int].loop_len > 0,
        0 <= layer < m.tracks[track as int].layers.len(),
        0 <= i < 3,
    ensures
        ({
            let meant = session.intent(MidiAction::Overdub { track });
            &&& meant matches MidiIntent::Session(what)
            &&& session.decision(what, shown, est, ts) matches Ok(decided)
            &&& decided.commands.len() == 3
            &&& decided.commands[0] matches Command::StartOverdub { track: on, .. }
            &&& on == track
            &&& !(decided.commands[i] is StartRecord)
            &&& !(decided.commands[i] is ClearTrack)
            &&& !(decided.commands[i] is ClearAll)
            &&& !(decided.commands[i] is RemoveLayer)
            &&& m.applied(decided.commands[i]).tracks[track as int].layers.len()
                >= m.tracks[track as int].layers.len()
            &&& m.applied(decided.commands[i]).tracks[track as int].layers[layer]
                == m.tracks[track as int].layers[layer]
        }),
{
    a_transport_action_becomes_its_own_commands(
        session,
        Action::Overdub { track },
        shown,
        est,
        ts,
    );
    let decided = session.decision(Action::Overdub { track }, shown, est, ts)->Ok_0;
    assert(decided.commands[0].target() == Some(track));
    assert(decided.commands[1].target() == Some(track));
    assert(decided.commands[2].target() == Some(track));
    if let Command::StartOverdub { at, .. } = decided.commands[i] {
        a_further_layer_keeps_the_others(m, track, at, layer);
    }
}

/// A pad that stops a track keeps its layers, unless all it does is cancel a take that has not
/// begun.
pub proof fn a_pad_that_stops_keeps_the_layers(
    session: SessionModel,
    track: usize,
    shown: Seq<char>,
    est: u64,
    ts: TrackStatus,
    m: EngineModel,
    i: int,
)
    requires
        !session.score_playing,
        track < session.tracks.len(),
        track < m.tracks.len(),
        ts.state != TrackState::Armed,
    ensures
        ({
            let meant = session.intent(MidiAction::StopTrack { track });
            &&& meant matches MidiIntent::Session(what)
            &&& session.decision(what, shown, est, ts) matches Ok(decided)
            &&& 0 <= i < decided.commands.len() ==> m.applied(
                decided.commands[i],
            ).tracks[track as int].layers == m.tracks[track as int].layers
        }),
{
}

/// A knob on the surcharge of a track, taken all the way: the engine compensates that track by its
/// own measurement and the new surcharge, as soon as the session has accepted it.
pub proof fn a_trim_knob_reaches_the_engine(
    session: SessionModel,
    track: usize,
    trim: i32,
    shown: Seq<char>,
    est: u64,
    ts: TrackStatus,
    m: EngineModel,
)
    requires
        track < session.tracks.len(),
        track < m.tracks.len(),
    ensures
        ({
            let meant = session.intent(MidiAction::LatencyTrim { track, trim });
            let measured = session.tracks[track as int].latency.measured;
            let base = match measured {
                Some(frames) => frames as int,
                None => m.latency as int,
            };
            &&& meant matches MidiIntent::Session(what)
            &&& session.decision(what, shown, est, ts) matches Ok(decided)
                ==> decided.commands.len() == 1 && m.applied(decided.commands[0]).latency_of(
                track as int,
            ) == (if base + trim < 0 {
                0
            } else {
                base + trim
            })
        }),
{
}

/// The measured half is that of the track the knob names, and every other control leaves it out.
pub proof fn a_knob_keeps_the_measurement_of_its_track(session: SessionModel, action: MidiAction)
    ensures
        action matches MidiAction::LatencyTrim { track, .. } ==> session.measured_for(action) == (
        if track < session.tracks.len() {
            session.tracks[track as int].latency.measured
        } else {
            None
        }),
        session.intent(action) matches MidiIntent::Session(what) ==> what.target() == (
        match action {
            MidiAction::Record { track } => Some(track),
            MidiAction::Overdub { track } => Some(track),
            MidiAction::Play { track } => Some(track),
            MidiAction::StopTrack { track } => Some(track),
            MidiAction::ClearTrack { track } => Some(track),
            MidiAction::Monitor { track, .. } => Some(track),
            MidiAction::Pan { track, .. } => Some(track),
            MidiAction::Send { track, .. } => Some(track),
            MidiAction::LatencyTrim { track, .. } => Some(track),
            MidiAction::LayerMute { track, .. } => Some(track),
            MidiAction::LayerRemove { track, .. } => Some(track),
            MidiAction::LayerGain { track, .. } => Some(track),
            MidiAction::FxBypass { track, .. } => Some(track),
            MidiAction::FxEnable { track, .. } => Some(track),
            MidiAction::FxParam { track, .. } => Some(track),
            MidiAction::FxPreset { track, .. } => Some(track),
            _ => None,
        }),
{
}

/// What is told about an event is what became of it: nothing where nothing is bound, the reason where
/// it was absorbed or refused, and otherwise what the session answered.
pub proof fn an_event_is_told_as_it_was_answered(
    resolution: Resolution,
    answer: Option<Result<Option<Seq<char>>, Seq<char>>>,
)
    ensures
        told(resolution, answer).0 == MidiOutcome::Action <==> (resolution is Action
            && answer is Some && answer->0 is Ok),
        told(resolution, answer).0 == MidiOutcome::Unbound <==> resolution is Unbound,
        told(resolution, answer).0 == MidiOutcome::Absorbed <==> resolution is Absorbed,
        resolution matches Resolution::Absorbed(reason) ==> told(resolution, answer).1 == Some(
            reason@,
        ),
        resolution matches Resolution::Refused(reason) ==> told(resolution, answer).1 == Some(
            reason@,
        ) && told(resolution, answer).0 == MidiOutcome::Refused,
        resolution is Action ==> (answer matches Some(Err(text)) ==> told(resolution, answer).1
            == Some(text) && told(resolution, answer).0 == MidiOutcome::Refused),
        resolution is Action ==> (answer matches Some(Ok(message)) ==> told(resolution, answer).1
            == message),
        resolution is Action && answer is None ==> told(resolution, answer).0
            == MidiOutcome::Refused,
{
}

} // verus!
