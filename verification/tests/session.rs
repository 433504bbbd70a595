use looper_engine::action::{intent_of, Action, MidiIntent, ScoreAction};
use looper_engine::audio::unknown_host;
use looper_engine::bus::{Bus, BusOutput, BusSend, TrackSource};
use looper_engine::command::{Command, Refusal, Status, TrackLatency, TrackState, MAX_TRACKS};
use looper_engine::bridge::MidiBridge;
use looper_engine::desk::{Resolution, Routed, Served};
use looper_engine::fx::{FxParam, FxPreset, FxSlot};
use looper_engine::host::{
    max_latency, render_issues, Counters, Phase, ScoreHead, ScoreReply, Session,
};
use looper_engine::logfile::LogFile;
use looper_engine::midi::{FxKnob, MidiAction, MidiEvent, MidiOutcome, Target, TrackRef};
use looper_engine::proto::{StartConfig, TrackConfig};
use looper_engine::reading::{knob_value, Reading};
use looper_engine::schedule::{Lead, Quantize};
use looper_engine::single::Single;
use looper_engine::requests::{bindings_refused, handle, Job, Request};
use looper_engine::start::{app_info, engine_info, start_session, Device, Opened, Started};
use looper_engine::timeline::{Bpm, TimeSignature};
use looper_engine::track::MAX_LAYERS;

fn single(x: f32) -> Single {
    Single { bits: x.to_bits() }
}

fn bpm(value: f64) -> Bpm {
    Bpm { bits: value.to_bits() }
}

fn opened() -> Opened {
    Opened {
        input_rate: 48_000,
        output_rate: 48_000,
        input_channels: 2,
        output_channels: 4,
        buffer_frames: 128,
    }
}

/// A session on 120 BPM with two tracks and one bar per loop.
fn started() -> Started {
    let config = StartConfig {
        bpm: bpm(120.0),
        bars: 1,
        ..StartConfig::of_tracks(vec![
            TrackConfig::mono("stimme", 1),
            TrackConfig::mono(" gitarre ", 2),
        ])
    };
    match start_session(&config, "120", &opened()) {
        Ok(started) => started,
        Err(e) => panic!("{e}"),
    }
}

/// Run the engine for some blocks of 128 frames, with silence on its inputs.
fn run(s: &mut Started, blocks: usize) {
    for _ in 0..blocks {
        s.core.begin_block();
        let mut cursor = 0;
        loop {
            let step = s.core.next_step(cursor, 128);
            cursor = step.boundary;
            match step.command {
                Some(index) => s.core.carry_out(index),
                None => break,
            }
        }
        let mut output = [0u32; 128];
        s.core.end_block(&[0u32; 256], &mut output);
    }
}

/// The newest snapshot of the engine, shown to the session.
fn observed(s: &mut Started) -> Status {
    run(s, 4);
    let status = s.status.latest().expect("ein Status je 240 Samples");
    s.session.observe(status);
    status
}

fn apply(s: &mut Started, action: Action) -> Result<(), String> {
    assert!(s.session.can_apply(action, 0));
    s.session.apply(action, "120", 0)
}

#[test]
fn every_action_knows_whether_it_addresses_a_track() {
    assert_eq!(Action::Record { track: 2 }.track(), Some(2));
    assert_eq!(Action::LayerGain { track: 1, layer: 0, gain: single(0.5) }.track(), Some(1));
    assert_eq!(Action::ClearAll.track(), None);
    assert_eq!(Action::SetClick { on: true }.track(), None);
    // The effect actions are all track-scoped: a chain belongs to one channel.
    assert_eq!(Action::FxBypass { track: 3, on: true }.track(), Some(3));
    assert_eq!(
        Action::FxEnable { track: 0, slot: FxSlot::Reverb, on: true }.track(),
        Some(0)
    );
    assert_eq!(Action::FxPreset { track: 1, preset: FxPreset::Voice }.track(), Some(1));
    assert_eq!(
        Action::FxParam { track: 2, param: FxParam::ReverbMix(single(0.2)) }.track(),
        Some(2)
    );
    assert_eq!(
        Action::SetTempo { bpm: bpm(120.0), beats_per_bar: 4, beat_unit: 4 }.track(),
        None
    );
}

/// A wrong host name has to be a sentence that names what was wrong and what there is.
#[test]
fn an_unknown_host_is_refused_in_german_before_any_device_is_opened() {
    let err = unknown_host("gibtsnicht", "kein solcher Host", &vec!["wasapi".to_string()], false);
    assert!(err.contains("gibtsnicht"), "{err}");
    assert!(err.contains("Verfuegbar"), "die Meldung zaehlt die Hosts auf: {err}");
}

/// The transport belongs to the runner while a score plays, the mix belongs to the human. This is
/// the line, and it is the reason the runner's predicted loop geometry stays exact.
#[test]
fn the_runner_owns_the_transport_and_the_human_owns_the_mix() {
    for action in [
        Action::Record { track: 0 },
        Action::Overdub { track: 0 },
        Action::StopTrack { track: 0 },
        Action::Play { track: 0 },
        Action::ClearTrack { track: 0 },
        Action::ClearAll,
        Action::SetTempo { bpm: bpm(120.0), beats_per_bar: 4, beat_unit: 4 },
        Action::SetQuantize { quantize: Quantize::Bar },
    ] {
        assert!(action.moves_transport(), "{action:?} verschiebt Takes");
    }
    for action in [
        Action::SetPan { track: 0, pan: single(0.5) },
        Action::SetMonitor { track: 0, on: true },
        Action::SetClick { on: false },
        Action::LayerGain { track: 0, layer: 0, gain: single(0.5) },
        Action::LayerMute { track: 0, layer: 0, muted: true },
        Action::FxBypass { track: 0, on: true },
        Action::FxPreset { track: 0, preset: FxPreset::Voice },
        Action::SetTrackLatency { track: 0, latency: TrackLatency::inherited() },
    ] {
        assert!(
            !action.moves_transport(),
            "{action:?} gehoert weiter dem Menschen, auch waehrend die Partitur laeuft"
        );
    }
}

/// The line has to be in the same place for a pad as for the mouse.
#[test]
fn a_midi_pad_hits_the_same_transport_boundary_as_a_mouse_click() {
    let track = || TrackRef::Index(0);
    let pairs: Vec<(Target, Action)> = vec![
        (Target::Record(track()), Action::Record { track: 0 }),
        (Target::Overdub(track()), Action::Overdub { track: 0 }),
        (Target::Play(track()), Action::Play { track: 0 }),
        (Target::StopTrack(track()), Action::StopTrack { track: 0 }),
        (Target::ClearTrack(track()), Action::ClearTrack { track: 0 }),
        (Target::ClearAll, Action::ClearAll),
        (
            Target::Tempo,
            Action::SetTempo { bpm: bpm(120.0), beats_per_bar: 4, beat_unit: 4 },
        ),
        (
            Target::Quantize(Quantize::Bar),
            Action::SetQuantize { quantize: Quantize::Bar },
        ),
        (
            Target::Quantize(Quantize::Loop),
            Action::SetQuantize { quantize: Quantize::Loop },
        ),
        // The other half of the rule: the mix stays the human's, from either input.
        (Target::Monitor(track()), Action::SetMonitor { track: 0, on: true }),
        (Target::Pan(track()), Action::SetPan { track: 0, pan: single(0.5) }),
        (Target::Click, Action::SetClick { on: true }),
        (
            Target::LayerGain(track(), 0),
            Action::LayerGain { track: 0, layer: 0, gain: single(0.5) },
        ),
        (
            Target::LayerMute(track(), 0),
            Action::LayerMute { track: 0, layer: 0, muted: true },
        ),
        (Target::FxBypass(track()), Action::FxBypass { track: 0, on: true }),
        (
            Target::FxPreset(track(), FxPreset::Voice),
            Action::FxPreset { track: 0, preset: FxPreset::Voice },
        ),
    ];
    for (target, action) in &pairs {
        assert_eq!(
            target.moves_transport(),
            action.moves_transport(),
            "{target:?} und {action:?} sind sich uneinig darueber, ob das den Transport verschiebt"
        );
    }
}

/// A resolved pad or knob becomes the very action a mouse click produces.
#[test]
fn a_resolved_midi_event_becomes_the_action_a_mouse_click_produces() {
    let signature = TimeSignature::new(4, 4);
    assert_eq!(
        intent_of(MidiAction::Record { track: 1 }, signature, None),
        MidiIntent::Session(Action::Record { track: 1 })
    );
    assert_eq!(
        intent_of(
            MidiAction::FxParam { track: 0, param: FxParam::ReverbMix(single(1.0)) },
            signature,
            None
        ),
        MidiIntent::Session(Action::FxParam { track: 0, param: FxParam::ReverbMix(single(1.0)) })
    );
    // The score's transport goes to the runner, not through the session.
    assert_eq!(
        intent_of(MidiAction::ScoreNext, signature, None),
        MidiIntent::Score(ScoreAction::Next)
    );
}

/// Every MIDI action that moves the transport has to become an action that also does.
#[test]
fn the_transport_boundary_survives_the_translation_from_midi_to_action() {
    let signature = TimeSignature::new(4, 4);
    let actions = [
        MidiAction::Record { track: 0 },
        MidiAction::Overdub { track: 0 },
        MidiAction::Play { track: 0 },
        MidiAction::StopTrack { track: 0 },
        MidiAction::ClearTrack { track: 0 },
        MidiAction::ClearAll,
        MidiAction::Tempo(bpm(120.0)),
        MidiAction::SetQuantize(Quantize::Bar),
        MidiAction::Click(true),
        MidiAction::Monitor { track: 0, on: true },
        MidiAction::Pan { track: 0, pan: single(0.5) },
        MidiAction::LatencyTrim { track: 0, trim: 120 },
        MidiAction::LayerMute { track: 0, layer: 0, muted: true },
        MidiAction::LayerRemove { track: 0, layer: 0 },
        MidiAction::LayerGain { track: 0, layer: 0, gain: single(0.5) },
        MidiAction::FxBypass { track: 0, on: true },
        MidiAction::FxEnable { track: 0, slot: FxSlot::Reverb, on: true },
        MidiAction::FxPreset { track: 0, preset: FxPreset::Voice },
        MidiAction::FxParam { track: 0, param: FxParam::ReverbMix(single(0.2)) },
    ];
    for action in actions {
        match intent_of(action, signature, None) {
            MidiIntent::Session(what) => assert_eq!(
                action.moves_transport(),
                what.moves_transport(),
                "{action:?} und {what:?} sind sich uneinig darueber, ob das den Transport verschiebt"
            ),
            // The score's own transport is deliberately outside the rule: it *is* the runner's
            // release button, and locking it would lock the one thing the pad is held for.
            MidiIntent::Score(_) => {
                panic!("keine dieser Absichten gehoert dem Runner: {action:?}")
            }
        }
    }
}

/// The manual surcharge is the only half a knob may touch. A measurement that a turn of the trim
/// knob wiped out would have to be made again with a cable and a click track.
#[test]
fn the_latency_knob_moves_the_surcharge_and_keeps_the_measurement() {
    let intent = intent_of(
        MidiAction::LatencyTrim { track: 1, trim: -240 },
        TimeSignature::new(4, 4),
        Some(827),
    );
    assert_eq!(
        intent,
        MidiIntent::Session(Action::SetTrackLatency {
            track: 1,
            latency: TrackLatency { measured: Some(827), trim: -240 }
        })
    );
}

/// Everything that is wrong with a score as one German block, one line per complaint.
#[test]
fn the_load_command_renders_every_complaint_into_one_german_block() {
    let issues = vec!["Zeile 1: tracks fehlt".to_string(), "Zeile 1: sections fehlt".to_string()];
    let text = render_issues(&issues);
    assert!(text.starts_with("Die Partitur laesst sich nicht uebersetzen"), "{text}");
    assert_eq!(
        text.lines().count(),
        1 + issues.len(),
        "Kopfzeile plus eine Zeile je Fehler: {text}"
    );
}

/// The one fact about the build that decides whether the app is usable at all.
#[test]
fn the_device_survey_reports_whether_asio_is_built_in() {
    let log = LogFile::opened("looper.log".to_string(), false, false, true);
    let info = app_info("0.4.0", &log, false);
    assert!(!info.asio_built);
    assert!(app_info("0.4.0", &log, true).asio_built);
    assert_eq!(info.max_tracks, MAX_TRACKS as u32);
    assert_eq!(info.max_layers, MAX_LAYERS as u32);
    assert_eq!(info.version, "0.4.0");
    assert_eq!(info.log_path, "looper.log");
    assert!(info.logging);
}

#[test]
fn a_session_starts_with_its_tracks_trimmed_and_silent() {
    let s = started();
    assert_eq!(s.session.tracks.len(), 2);
    assert_eq!(s.session.tracks[1].name, "gitarre");
    assert_eq!(s.core.track_count(), 2);
    assert_eq!(s.core.track(1).input_channel, 1);
    assert_eq!(s.session.layer_frames, 96_000 + 64);
    assert_eq!(s.core.routing().get(Bus::Monitor), BusOutput::pair(2));
    assert_eq!(s.defs[0].name, "stimme");
    assert_eq!(s.scratch_frames, 128 * 16);

    let slow = Opened { output_rate: 44_100, ..opened() };
    let config = StartConfig::of_tracks(vec![TrackConfig::mono("a", 1)]);
    assert!(start_session(&config, "100", &slow).is_err(), "zwei Takte");
    let none = StartConfig::of_tracks(vec![]);
    assert!(start_session(&none, "100", &opened()).is_err(), "keine Tracks");
    let fast = StartConfig { bpm: bpm(500.0), ..StartConfig::of_tracks(vec![TrackConfig::mono("a", 1)]) };
    assert!(start_session(&fast, "500", &opened()).is_err(), "kein Tempo");
}

#[test]
fn an_applied_action_arrives_in_the_engine() {
    let mut s = started();
    apply(&mut s, Action::SetMonitor { track: 1, on: true }).unwrap();
    apply(&mut s, Action::SetPan { track: 0, pan: single(-0.5) }).unwrap();
    apply(&mut s, Action::SetBusGain { bus: Bus::Main, gain: single(0.25) }).unwrap();
    apply(
        &mut s,
        Action::SetTrackBus { track: 0, source: TrackSource::Loop, bus: Bus::Monitor, on: true },
    )
    .unwrap();
    apply(&mut s, Action::SetBusOutput { bus: Bus::Monitor, out: BusOutput::mono(3) }).unwrap();
    apply(&mut s, Action::FxPreset { track: 1, preset: FxPreset::Voice }).unwrap();
    assert_eq!(s.session.message.as_deref(), Some("\"gitarre\": Preset \"stimme\" geladen."));
    let status = observed(&mut s);
    assert!(status.track(1).monitor && !status.track(0).monitor);
    assert_eq!(status.track(0).pan, single(-0.5));
    assert_eq!(status.bus_gain(Bus::Main), single(0.25));
    assert!(status.track(0).loop_send.on(Bus::Monitor));
    assert_eq!(status.bus_out.get(Bus::Monitor), BusOutput::mono(3));
    assert_eq!(status.track(1).fx.preset, FxPreset::Voice);
    assert_eq!(status.ignored_commands, 0);
}

#[test]
fn a_bad_action_is_refused_with_a_sentence_and_sends_nothing() {
    let mut s = started();
    for (action, needle) in [
        (Action::Record { track: 7 }, "vorhanden sind 1 bis 2"),
        (Action::SetPan { track: 0, pan: single(1.5) }, "Panorama"),
        (Action::SetBusGain { bus: Bus::Main, gain: single(-0.1) }, "Bus-Lautstaerke"),
        (
            Action::SetBusOutput { bus: Bus::Main, out: BusOutput { first: 0, width: 3 } },
            "auf einem Paar",
        ),
        (Action::LayerMute { track: 0, layer: 0, muted: true }, "keine Ebenen"),
        (Action::FxPreset { track: 0, preset: FxPreset::Custom }, "kein Preset zum Laden"),
        (
            Action::SetTrackLatency {
                track: 0,
                latency: TrackLatency { measured: Some(96_001), trim: 0 },
            },
            "96000 Frames",
        ),
        (
            Action::SetTempo { bpm: bpm(900.0), beats_per_bar: 4, beat_unit: 4 },
            "400",
        ),
    ] {
        let err = apply(&mut s, action).expect_err(needle);
        assert!(err.contains(needle), "{err}");
    }
    let status = observed(&mut s);
    assert_eq!(status.ignored_commands, 0);
    assert_eq!(s.session.message, None);
}

#[test]
fn a_playing_score_keeps_the_hands_off_the_transport() {
    let mut s = started();
    s.session.score_playing = true;
    let err = apply(&mut s, Action::Record { track: 0 }).expect_err("der Partitur");
    assert!(err.contains("Partitur"), "{err}");
    apply(&mut s, Action::SetClick { on: false }).unwrap();
    assert!(s.session.route(MidiAction::ClearAll, "120", 0).is_err());
    assert_eq!(
        s.session.route(MidiAction::Click(true), "120", 0),
        Ok(Routed::Done)
    );
    assert_eq!(
        s.session.route(MidiAction::ScoreStopAll, "120", 0),
        Ok(Routed::Score(ScoreAction::StopAll))
    );
}

#[test]
fn a_take_is_recorded_where_it_was_planned() {
    let mut s = started();
    for _ in 0..3 {
        s.buffers.install(vec![0; 96_064]).unwrap();
    }
    apply(&mut s, Action::Record { track: 0 }).unwrap();
    let waiting = observed(&mut s);
    assert_eq!(waiting.track(0).state, TrackState::Empty, "der Takt kommt erst noch");
    assert!(s.session.message.as_deref().unwrap().contains("stimme"));
    run(&mut s, 96_000 / 128);
    assert_eq!(observed(&mut s).track(0).state, TrackState::Recording);
    run(&mut s, 110_000 / 128);
    let done = observed(&mut s);
    assert_eq!(done.track(0).state, TrackState::Playing);
    assert_eq!(done.track(0).loop_len, 96_000);
    assert_eq!(done.track(0).layers, 1);

    apply(&mut s, Action::LayerGain { track: 0, layer: 0, gain: single(0.5) }).unwrap();
    assert_eq!(s.session.tracks[0].gains, vec![single(0.5)]);
    assert_eq!(
        s.session.value(&Target::LayerGain(TrackRef::Name("stimme".to_string()), 0)),
        Some(Reading::Number(single(0.5)))
    );
    apply(&mut s, Action::LayerMute { track: 0, layer: 0, muted: true }).unwrap();
    observed(&mut s);
    assert_eq!(s.session.switch(&Target::LayerMute(TrackRef::Index(0), 0)), Some(true));
    let err = apply(&mut s, Action::SetTempo { bpm: bpm(90.0), beats_per_bar: 4, beat_unit: 4 })
        .expect_err("nicht leer");
    assert!(!err.is_empty());
    apply(&mut s, Action::ClearAll).unwrap();
    assert!(s.session.tracks[0].gains.is_empty());
    run(&mut s, 32);
    let empty = observed(&mut s);
    assert_eq!(empty.track(0).state, TrackState::Empty);
    apply(&mut s, Action::SetTempo { bpm: bpm(90.0), beats_per_bar: 4, beat_unit: 4 }).unwrap();
    assert_eq!(observed(&mut s).bpm, bpm(90.0));
    assert_eq!(s.session.value(&Target::Tempo), Some(Reading::Tempo(bpm(90.0))));
}

#[test]
fn a_refusal_of_the_engine_is_told_once() {
    let mut s = started();
    // Nothing has been installed, so the take finds no buffer.
    apply(&mut s, Action::Record { track: 0 }).unwrap();
    run(&mut s, 96_000 / 128);
    let status = observed(&mut s);
    assert_eq!(status.refusal, Refusal::NoBuffer);
    assert!(status.ignored_commands > 0);
    let told = s.session.message.clone();
    assert_eq!(told.as_deref(), Refusal::NoBuffer.message());
    s.session.message = None;
    s.session.observe(status);
    assert_eq!(s.session.message, None, "einmal reicht");
}

#[test]
fn an_event_shows_the_session_one_based() {
    let mut s = started();
    let status = observed(&mut s);
    let counters = Counters { xruns: 1, other_errors: 2, underruns: 3, overruns: 4 };
    let event = s.session.event(&status, counters, &vec![Lead::default(), Lead::default()]);
    assert!(event.running);
    assert_eq!((event.bar, event.beat), (status.bar + 1, status.beat + 1));
    assert_eq!(event.loop_samples, 96_000);
    assert_eq!(event.tracks.len(), 2);
    assert_eq!(event.tracks[1].name, "gitarre");
    assert_eq!(event.tracks[1].input_channel, 2);
    assert_eq!(
        (event.xruns, event.other_errors, event.fifo_underruns, event.fifo_overruns),
        (1, 2, 3, 4)
    );
    assert_eq!(event.latency_samples, 827);
    assert_eq!(event.output_peaks, vec![event.output_peak; 2]);
}

#[test]
fn a_score_is_loaded_onto_an_empty_session_only() {
    let mut s = started();
    observed(&mut s);
    let score = ScoreHead {
        title: "Lied".to_string(),
        bpm: bpm(90.0),
        shown: "90".to_string(),
        rounded: "90".to_string(),
        signature: TimeSignature::new(3, 4),
        metre: "3/4".to_string(),
        sections: 2,
        bars: 4,
    };
    let told = s.session.load_score(&score, 1).unwrap();
    assert!(told.contains("Partitur \"Lied\" geladen: 2 Sektionen, 90 BPM, 3/4"), "{told}");
    assert!(told.ends_with("1 Takt Einzaehler."), "{told}");
    assert_eq!(s.session.scheduler.bars, 4);
    s.session.score_playing = true;
    assert!(s.session.load_score(&score, 2).is_err());
}

#[test]
fn the_worst_compensation_is_the_largest_of_all() {
    assert_eq!(max_latency(827, &vec![]), 827);
    assert_eq!(
        max_latency(
            827,
            &vec![
                TrackLatency::inherited(),
                TrackLatency { measured: Some(900), trim: 50 },
                TrackLatency { measured: Some(10), trim: -50 },
            ]
        ),
        950
    );
}

#[test]
fn readings_follow_the_newest_snapshot() {
    let mut s = started();
    assert_eq!(s.session.value(&Target::Pan(TrackRef::Index(5))), None);
    assert_eq!(s.session.switch(&Target::Click), None, "noch kein Schnappschuss");
    assert_eq!(s.session.send(0, TrackSource::Loop), None);
    apply(&mut s, Action::FxParam { track: 0, param: FxParam::ReverbMix(single(0.75)) }).unwrap();
    apply(
        &mut s,
        Action::SetTrackSend { track: 1, source: TrackSource::Monitor, send: BusSend::BOTH },
    )
    .unwrap();
    let status = observed(&mut s);
    assert_eq!(
        s.session.value(&Target::FxKnob(TrackRef::Index(0), FxKnob::ReverbMix)),
        Some(Reading::Number(single(0.75)))
    );
    assert_eq!(knob_value(&status.track(0).fx.settings, FxKnob::ReverbMix), single(0.75));
    assert_eq!(s.session.send(1, TrackSource::Monitor), Some(BusSend::BOTH));
    assert_eq!(s.session.index(&TrackRef::Name("gitarre".to_string())), Some(1));
    assert_eq!(s.session.index(&TrackRef::Name("bass".to_string())), None);
    assert_eq!(
        s.session.switch(&Target::Send(TrackRef::Index(1), TrackSource::Monitor, Bus::Main)),
        Some(true)
    );
    assert_eq!(s.session.value(&Target::LatencyTrim(TrackRef::Index(0))), Some(Reading::Frames(0)));
}

/// A press of the score transport hands its commands on and repeats its sentence; without a score it
/// says where to find one.
#[test]
fn a_press_of_the_score_transport_is_answered() {
    let mut s = started();
    let err = s.session.score_act(None).expect_err("keine Partitur");
    assert!(err.starts_with("Es ist keine Partitur geladen."), "{err}");
    let reply = ScoreReply {
        message: "Die Partitur laeuft.".to_string(),
        commands: vec![Command::SetMonitor { track: 1, on: true }],
        phase: Phase::Running,
    };
    assert_eq!(s.session.score_act(Some(reply)).as_deref(), Ok("Die Partitur laeuft."));
    assert!(s.session.score_playing);
    assert_eq!(s.session.message.as_deref(), Some("Die Partitur laeuft."));
    assert!(observed(&mut s).track(1).monitor);
    // While it plays, a click on the transport is refused.
    assert!(apply(&mut s, Action::Record { track: 0 }).is_err());
    s.session.pump_runner(&vec![Command::SetMonitor { track: 1, on: false }]);
    assert!(!observed(&mut s).track(1).monitor);
}

#[test]
fn the_window_is_told_what_was_opened() {
    let s = started();
    let config = StartConfig::of_tracks(vec![
        TrackConfig::mono("stimme", 1),
        TrackConfig::mono(" gitarre ", 2),
    ]);
    let device = Device {
        host: "asio".to_string(),
        input: "Focusrite".to_string(),
        output: "Focusrite".to_string(),
        input_format: "I32".to_string(),
        output_format: "I32".to_string(),
        driver_input_frames: Some(128),
        driver_output_frames: None,
    };
    let info = engine_info(&s.session, &config, &opened(), &device);
    assert_eq!((info.host.as_str(), info.input_device.as_str()), ("asio", "Focusrite"));
    assert_eq!((info.input_channels, info.output_channels), (2, 4));
    assert_eq!((info.sample_rate, info.buffer_frames), (48_000, 128));
    assert_eq!(info.loop_samples, 96_000);
    assert_eq!(info.layer_capacity, 96_064);
    assert_eq!((info.driver_input_frames, info.driver_output_frames), (Some(128), None));
    assert_eq!(info.tracks[1].name, "gitarre");
    assert_eq!(info.max_layers, MAX_LAYERS as u32);
    assert!(info.memory_bytes >= 2 * 32 * 96_064 * 4);
}

/// The device has one owner: no calibration while a session runs, and a restart closes the old one
/// first.
#[test]
fn a_request_is_judged_by_whether_the_engine_runs() {
    let log = LogFile::opened("looper.log".to_string(), false, false, true);
    assert!(matches!(handle(Request::ListDevices, false, &log), Job::Survey));
    assert!(matches!(handle(Request::ListDevices, true, &log), Job::Survey));
    assert!(matches!(handle(Request::Stop, false, &log), Job::Refuse(_)));
    assert!(matches!(handle(Request::Stop, true, &log), Job::Stop));
    assert!(matches!(handle(Request::Start, true, &log), Job::Start { stop_first: true }));
    assert!(matches!(handle(Request::Start, false, &log), Job::Start { stop_first: false }));
    assert!(matches!(handle(Request::Act, false, &log), Job::Refuse(_)));
    assert!(matches!(handle(Request::Act, true, &log), Job::Act));
    assert!(matches!(handle(Request::Calibrate, true, &log), Job::Refuse(_)));
    assert!(matches!(handle(Request::Calibrate, false, &log), Job::Calibrate));
    assert!(matches!(handle(Request::MidiLearn { armed: true }, false, &log), Job::Arm));
    assert!(matches!(handle(Request::MidiLearn { armed: false }, false, &log), Job::CancelLearn));
    assert!(matches!(handle(Request::MidiSave, false, &log), Job::Save));
    let text = bindings_refused(&vec!["Zeile 4".to_string(), "Zeile 9".to_string()]);
    assert!(text.contains("Zeile 4") && text.contains("Zeile 9"), "{text}");
}

#[test]
fn a_device_is_held_up_to_the_size_of_its_queue() {
    assert!(opened().can_hold());
    assert!(!Opened { buffer_frames: u32::MAX, ..opened() }.can_hold());
    assert!(!Opened { buffer_frames: 0x0100_0000, ..opened() }.can_hold());
    assert!(Opened { buffer_frames: 0, ..opened() }.can_hold());
}

/// A resolved event goes through the same door as a click, and the window is told what came of it.
#[test]
fn a_pad_is_served_by_the_session() {
    let s = started();
    let mut bridge = MidiBridge::new();
    bridge.take_feed(false);
    let pad = MidiEvent::NoteOn { channel: 1, note: 36, velocity: 100 };
    let mut session = Some(s.session);
    let mut serve = |action: MidiAction, session: &mut Option<Session>| {
        bridge.serve(session, &pad, Resolution::Action(action), "120", 0)
    };
    let preset = MidiAction::FxPreset { track: 0, preset: FxPreset::Voice };
    assert_eq!(serve(preset, &mut session), Served::Told { rearm: true });
    assert_eq!(
        serve(MidiAction::FxPreset { track: 9, preset: FxPreset::Voice }, &mut session),
        Served::Told { rearm: false }
    );
    assert_eq!(
        serve(MidiAction::ScoreStopAll, &mut session),
        Served::Score(ScoreAction::StopAll)
    );
    let feed = bridge.take_feed(false).unwrap();
    let outcomes: Vec<MidiOutcome> = feed.events.iter().map(|e| e.outcome).collect();
    assert_eq!(outcomes, vec![MidiOutcome::Action, MidiOutcome::Refused]);
}

/// As many commands find room as the queue has, in order, and the next one is refused.
#[test]
fn the_command_queue_of_a_session_holds_two_hundred_and_fifty_six() {
    let mut s = started();
    for i in 0..256u32 {
        apply(&mut s, Action::SetClick { on: i % 2 == 0 }).unwrap();
    }
    let err = apply(&mut s, Action::SetClick { on: true }).expect_err("voll");
    assert!(err.contains("voll"), "{err}");
}

#[test]
fn without_an_engine_the_answer_says_so() {
    let log = LogFile::opened("looper.log".to_string(), true, false, true);
    for request in [Request::Act, Request::ScoreLoad, Request::ScoreAct] {
        match handle(request, false, &log) {
            Job::Refuse(text) => assert_eq!(text, "Die Engine laeuft nicht. Erst starten."),
            other => panic!("{other:?}"),
        }
    }
    match handle(Request::Stop, false, &log) {
        Job::Refuse(text) => assert_eq!(text, "Die Engine laeuft nicht."),
        other => panic!("{other:?}"),
    }
}

/// A score that comes to its end gives the transport back by itself.
#[test]
fn a_finished_score_frees_the_transport() {
    let mut s = started();
    s.session.tick_score(&vec![Command::SetMonitor { track: 1, on: true }], Phase::CountIn);
    assert!(s.session.score_playing);
    assert!(observed(&mut s).track(1).monitor);
    assert!(apply(&mut s, Action::Record { track: 0 }).is_err());
    s.session.tick_score(&vec![], Phase::Running);
    assert!(apply(&mut s, Action::Record { track: 0 }).is_err());
    s.session.tick_score(&vec![], Phase::Over);
    assert!(!s.session.score_playing);
    assert!(apply(&mut s, Action::Record { track: 0 }).is_ok());
    assert!(!Phase::Waiting.is_playing());
}

#[test]
fn a_compensation_beyond_counting_is_refused() {
    let config = StartConfig {
        latency_samples: 1 << 32,
        ..StartConfig::of_tracks(vec![TrackConfig::mono("stimme", 1)])
    };
    let err = match start_session(&config, "120", &opened()) {
        Ok(_) => panic!("gestartet"),
        Err(e) => e,
    };
    assert!(err.contains("96000 Frames"), "{err}");
}
