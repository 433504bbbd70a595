use looper_engine::bus::BusRouting;
use looper_engine::command::{
    command_channel, Command, CommandReceiver, Refusal, Status, TrackState, TrackStatus, MAX_TRACKS,
};
use looper_engine::display::{draw, global_line, track_line, LINE_WIDTH};
use looper_engine::fx::{Chain, DelayNote, FxParam, FxPreset, FxSlot};
use looper_engine::host::Counters;
use looper_engine::live::{
    fx_text, layer_list, on_off, parse_track_arg, resolve_tracks, set_gain, Control, Tempo,
    TrackDef, TrackUi,
};
use looper_engine::schedule::{Quantize, Scheduler};
use looper_engine::single::Single;
use looper_engine::timeline::{Bpm, TimeSignature, Timeline};

fn single(x: f32) -> Single {
    Single { bits: x.to_bits() }
}

fn bpm(value: f64) -> Bpm {
    Bpm { bits: value.to_bits() }
}

fn specs(list: &[&str]) -> Vec<String> {
    list.iter().map(|s| s.to_string()).collect()
}

#[test]
fn track_arguments_are_parsed_one_based() {
    assert_eq!(
        parse_track_arg("stimme:1").unwrap(),
        TrackDef { name: "stimme".to_string(), channel: 0 }
    );
    assert_eq!(parse_track_arg(" gitarre : 2 ").unwrap().channel, 1);
    for bad in ["stimme", "stimme:", ":1", "stimme:0", "stimme:x"] {
        let err = parse_track_arg(bad).expect_err(bad);
        assert!(err.contains("--track"), "deutsche Meldung fehlt: {err}");
    }
}

#[test]
fn the_default_setup_is_voice_and_guitar_on_the_first_two_inputs() {
    let two = resolve_tracks(&specs(&[]), 2).unwrap();
    assert_eq!(two.len(), 2);
    assert_eq!(two[0].name, "stimme");
    assert_eq!(two[0].channel, 0);
    assert_eq!(two[1].name, "gitarre");
    assert_eq!(two[1].channel, 1);
    // A mono device gets one track instead of an error.
    assert_eq!(resolve_tracks(&specs(&[]), 1).unwrap().len(), 1);
    assert!(resolve_tracks(&specs(&[]), 0).is_err());
}

#[test]
fn a_channel_the_device_does_not_have_is_refused_in_german() {
    let err = resolve_tracks(&specs(&["stimme:1", "gitarre:4"]), 2).expect_err("muss scheitern");
    assert!(err.contains("gitarre"), "{err}");
    assert!(err.contains("Eingang 4"), "{err}");
    assert!(err.contains("--in-channels"), "Hinweis fehlt: {err}");

    let err = resolve_tracks(&specs(&["a:1", "a:2"]), 4).expect_err("doppelter Name");
    assert!(err.contains("eindeutig"), "{err}");

    let many: Vec<String> = (1..=MAX_TRACKS + 1).map(|i| format!("t{i}:1")).collect();
    assert!(resolve_tracks(&many, 8).is_err(), "Obergrenze greift");
}

/// The one thing the musician reads off the screen while playing: is the chain doing anything, which
/// preset is it, and what is on.
#[test]
fn the_effect_column_says_what_is_switched_on() {
    let mut chain = Chain::new(48_000);
    chain.load_preset(FxPreset::Voice);
    let ts = TrackStatus { fx: chain.status(single(0.0)), ..Default::default() };
    assert_eq!(fx_text(&ts.fx), "stimme HEK-R");

    chain.set_enabled(FxSlot::Delay, true);
    chain.set_param(FxParam::DelayNote(DelayNote::Quarter));
    let ts = TrackStatus { fx: chain.status(single(0.0)), ..Default::default() };
    assert_eq!(fx_text(&ts.fx), "eigen HEKDR 1/4");

    chain.set_bypass(true);
    let ts = TrackStatus { fx: chain.status(single(0.0)), ..Default::default() };
    assert_eq!(fx_text(&ts.fx), "aus");
    // A track nobody has touched shows nothing either, because it starts bypassed.
    assert_eq!(fx_text(&TrackStatus::default().fx), "aus");
}

#[test]
fn the_layer_list_shows_mute_and_gain() {
    let ts = TrackStatus { layers: 3, muted_mask: 0b010, ..Default::default() };
    assert_eq!(
        layer_list(&ts, &vec![single(1.0), single(1.0), single(0.5)]),
        "[1 2* 3(0.50)]"
    );
    assert_eq!(layer_list(&TrackStatus::default(), &vec![]), "-");
}

/// A gain within a hair of one is not shown, and every other is printed with two decimals.
#[test]
fn a_shown_gain_is_what_a_float_would_print() {
    let ts = TrackStatus { layers: 1, ..Default::default() };
    let mut bits = 0u32;
    while bits <= 4.0f32.to_bits() {
        let gain = f32::from_bits(bits);
        let want = if (gain - 1.0).abs() > 0.001 {
            format!("[1({gain:.2})]")
        } else {
            "[1]".to_string()
        };
        assert_eq!(layer_list(&ts, &vec![single(gain)]), want, "{gain}");
        bits += 104_729;
    }
    for gain in [0.0f32, 0.005, 0.125, 0.375, 0.998, 0.999, 1.0, 1.001, 1.0011, 2.675, 4.0] {
        let want = if (gain - 1.0).abs() > 0.001 {
            format!("[1({gain:.2})]")
        } else {
            "[1]".to_string()
        };
        assert_eq!(layer_list(&ts, &vec![single(gain)]), want, "{gain}");
    }
}

fn control() -> (Control, CommandReceiver) {
    let timeline = Timeline::new(48_000, bpm(120.0), TimeSignature::new(4, 4));
    let (cmd, rx) = command_channel(64);
    let ui = |name: &str, channel: usize| TrackUi {
        name: name.to_string(),
        channel,
        gains: Vec::new(),
    };
    (
        Control {
            cmd,
            sched: Scheduler::new(timeline, 8, 128),
            quantize: Quantize::Bar,
            latency: 827,
            layer_len: 8 * 96_000 + 64,
            tracks: vec![ui("stimme", 0), ui("gitarre", 1)],
            active: 0,
            message: String::new(),
            running: true,
        },
        rx,
    )
}

fn status() -> Status {
    Status {
        pos: 100_000,
        bar: 1,
        beat: 0,
        beat_offset: 4_000,
        tracks: [TrackStatus::default(); 8],
        track_count: 2,
        output_peak: single(0.5),
        click: true,
        bpm: bpm(120.0),
        main_gain: single(1.0),
        monitor_gain: single(1.0),
        bus_out: BusRouting::default_for(2),
        output_channels: 2,
        ignored_commands: 0,
        refusal: Refusal::Nothing,
        spares: 3,
        buffers_taken: 0,
        stopped: false,
    }
}

fn drained(rx: &mut CommandReceiver) -> Vec<Command> {
    let mut all = Vec::new();
    while let Some(cmd) = rx.pop() {
        all.push(cmd);
    }
    all
}

#[test]
fn the_keys_drive_the_track_that_was_chosen() {
    let (mut c, mut rx) = control();
    assert!(c.handle(" 2 ", None, &None, Some((status(), 0))));
    assert_eq!(c.active, 1);
    assert!(drained(&mut rx).is_empty());
    assert_eq!(c.message, "Track 2 \"gitarre\" gewaehlt.");

    c.handle("R", None, &None, Some((status(), 0)));
    assert_eq!(
        drained(&mut rx),
        vec![
            Command::StartRecord { track: 1, at: 192_000 },
            Command::StopRecord { track: 1, at: 192_000 + 8 * 96_000 },
            Command::StartPlay { track: 1, at: 192_000 + 8 * 96_000 },
        ],
        "Grossbuchstaben sind dieselben Tasten"
    );

    c.handle("m", None, &None, Some((status(), 0)));
    assert_eq!(drained(&mut rx), vec![Command::SetMonitor { track: 1, on: true }]);
    assert_eq!(c.message, "\"gitarre\": Mithoeren an.");

    c.handle("k", None, &None, Some((status(), 0)));
    assert_eq!(drained(&mut rx), vec![Command::SetClick { on: false }]);
    assert_eq!(c.message, "Klick aus.");

    c.handle("9", None, &None, Some((status(), 0)));
    assert_eq!(c.message, "Track 9 gibt es nicht. Vorhanden: 1 bis 2.");
    assert_eq!(c.active, 1);

    c.handle("hilfe", None, &None, Some((status(), 0)));
    assert!(c.message.starts_with("Unbekannte Eingabe \"hilfe\""), "{}", c.message);
    assert!(drained(&mut rx).is_empty());
}

#[test]
fn layers_are_muted_dropped_and_set_by_their_number() {
    let (mut c, mut rx) = control();
    let mut s = status();
    s.tracks[0].layers = 3;
    s.tracks[0].muted_mask = 0b010;
    c.handle("e 2", None, &None, Some((s, 0)));
    assert_eq!(
        drained(&mut rx),
        vec![Command::SetLayerMute { track: 0, layer: 1, muted: false }]
    );
    c.handle("l 3 0.5", Some(single(0.5)), &None, Some((s, 0)));
    assert_eq!(
        drained(&mut rx),
        vec![Command::SetLayerGain { track: 0, layer: 2, gain: single(0.5) }]
    );
    assert_eq!(c.message, "\"stimme\": Ebene 3 auf 0.50.");
    assert_eq!(c.tracks[0].gains, vec![single(1.0), single(1.0), single(0.5)]);
    c.handle("w 1", None, &None, Some((s, 0)));
    assert_eq!(drained(&mut rx), vec![Command::RemoveLayer { track: 0, layer: 0 }]);
    assert_eq!(c.tracks[0].gains, vec![single(1.0), single(0.5)]);
    c.handle("e 4", None, &None, Some((s, 0)));
    assert_eq!(c.message, "\"stimme\" hat die Ebenen 1 bis 3.");
    c.handle("l 1 9", Some(single(9.0)), &None, Some((s, 0)));
    assert_eq!(c.message, "Die Lautstaerke muss zwischen 0.0 und 4.0 liegen.");
    assert!(drained(&mut rx).is_empty());
    c.handle("a", None, &None, Some((s, 0)));
    assert_eq!(drained(&mut rx), vec![Command::ClearAll { at: c.sched.soon(100_000) }]);
    assert!(c.tracks[0].gains.is_empty());
}

#[test]
fn a_tempo_is_only_taken_while_everything_is_empty() {
    let (mut c, mut rx) = control();
    let tempo = Some(Tempo { bpm: bpm(90.0), shown: "90".to_string() });
    let mut s = status();
    s.tracks[1].state = TrackState::Playing;
    c.handle("t 90", None, &tempo, Some((s, 0)));
    assert_eq!(c.message, "Tempo laesst sich nur aendern, wenn alle Tracks leer sind (erst a).");
    assert!(drained(&mut rx).is_empty());

    c.handle("t 90 3", None, &tempo, Some((status(), 0)));
    assert_eq!(c.message, "Tempo 90 BPM, 3/4.");
    assert_eq!(c.sched.timeline.bpm(), bpm(90.0));
    assert_eq!(c.layer_len, 8 * 96_000 + 64);
    assert_eq!(
        drained(&mut rx),
        vec![Command::SetTempo {
            bpm: bpm(90.0),
            signature: TimeSignature::new(3, 4),
            layer_capacity: 8 * 96_000 + 64,
        }]
    );
    c.handle("q", None, &None, None);
    assert!(!c.running);
    assert_eq!(drained(&mut rx), vec![Command::Stop]);
}

#[test]
fn effects_are_switched_from_the_keyboard() {
    let (mut c, mut rx) = control();
    c.handle("v stimme", None, &None, Some((status(), 0)));
    assert_eq!(
        drained(&mut rx),
        vec![Command::LoadFxPreset { track: 0, preset: FxPreset::Voice }]
    );
    c.handle("x 4", None, &None, Some((status(), 0)));
    assert_eq!(
        drained(&mut rx),
        vec![Command::SetFxEnabled { track: 0, slot: FxSlot::Delay, on: true }]
    );
    assert!(c.message.contains("noch umgangen"), "{}", c.message);
    c.handle("d 1/8T", None, &None, Some((status(), 0)));
    assert_eq!(
        drained(&mut rx),
        vec![Command::SetFxParam {
            track: 0,
            param: FxParam::DelayNote(DelayNote::TripletEighth)
        }]
    );
    c.handle("f", None, &None, Some((status(), 0)));
    assert_eq!(drained(&mut rx), vec![Command::SetFxBypass { track: 0, on: false }]);
}

#[test]
fn the_status_block_is_padded_and_redrawn_in_place() {
    let (c, _rx) = control();
    let counters = Counters { xruns: 1, other_errors: 0, underruns: 2, overruns: 3 };
    let line = global_line(&status(), &c.sched, &counters, "2.1", "120.0", "4/4", " -6.0");
    assert!(line.contains("120.0"), "{line}");
    let first = track_line(&status().tracks[0], &c.tracks[0], "0.0", None, "-inf", true);
    assert!(first.contains("stimme"), "{first}");
    let block = draw(&vec![line.clone(), first.clone()], 0, false);
    assert!(block.contains(&line) && block.contains(&first));
    let again = draw(&vec![line], 2, false);
    assert!(again.contains("\u{1b}["), "{again:?}");
    assert!(block.len() >= 2 * LINE_WIDTH);
}

#[test]
fn a_gain_beyond_the_list_fills_the_gap_with_ones() {
    let mut gains = vec![single(0.5)];
    set_gain(&mut gains, 3, single(2.0));
    assert_eq!(gains, vec![single(0.5), single(1.0), single(1.0), single(2.0)]);
    assert_eq!((on_off(true), on_off(false)), ("an ", "aus"));
}

#[test]
fn a_plan_that_finds_half_its_room_is_sent_as_far_as_it_goes() {
    let (mut c, mut rx) = control();
    while c.cmd.send(Command::SetClick { on: true }).is_ok() {}
    assert_eq!(rx.pop(), Some(Command::SetClick { on: true }));
    assert_eq!(rx.pop(), Some(Command::SetClick { on: true }));
    assert!(!c.handle("r", None, &None, Some((status(), 0))), "drei Kommandos, zwei Plaetze");
    assert!(!c.running, "der Audio-Thread holt nichts mehr ab");
    let sent: Vec<Command> = drained(&mut rx)
        .into_iter()
        .filter(|command| *command != Command::SetClick { on: true })
        .collect();
    assert_eq!(
        sent,
        vec![
            Command::StartRecord { track: 0, at: 192_000 },
            Command::StopRecord { track: 0, at: 192_000 + 8 * 96_000 },
        ]
    );
}
