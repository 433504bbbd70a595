use looper_engine::command::{Command, TrackState, MAX_TRACKS};
use looper_engine::limits::{check_loop, limits_line, loop_capacity, max_memory_bytes};
use looper_engine::proto::TrackConfig;
use looper_engine::schedule::{
    build_timeline, grid, resolve_tracks, PendingKind, Quantize, Scheduler,
};
use looper_engine::timeline::{Bpm, TempoError, TimeSignature, Timeline};

const RATE: u32 = 48_000;

fn bpm(value: f64) -> Bpm {
    Bpm { bits: value.to_bits() }
}

fn scheduler(tempo: f64, bars: u32) -> Scheduler {
    Scheduler::new(Timeline::new(RATE, bpm(tempo), TimeSignature::new(4, 4)), bars, 128)
}

fn config(name: &str, channel: u32) -> TrackConfig {
    TrackConfig::mono(name, channel)
}

#[test]
fn the_head_start_is_four_buffers_plus_twenty_milliseconds() {
    assert_eq!(scheduler(120.0, 8).guard, 128 * 4 + 48_000 / 50);
}

/// Everything musical must land on a bar boundary that is still in the future by at least the head
/// start - that is the whole point of the quantisation.
#[test]
fn a_recording_starts_on_the_next_reachable_bar_and_lasts_the_configured_bars() {
    let s = scheduler(120.0, 8);
    // 120 BPM, 4/4, 48 kHz: 96000 samples per bar, so bar boundaries are multiples of that.
    let plan = s.record(0, "gitarre", 100_000);
    assert_eq!(
        plan.commands,
        vec![
            Command::StartRecord { track: 0, at: 192_000 },
            Command::StopRecord { track: 0, at: 192_000 + 8 * 96_000 },
            Command::StartPlay { track: 0, at: 192_000 + 8 * 96_000 },
        ]
    );
    assert!(plan.message.contains("Takt 3"), "{}", plan.message);
    assert!(plan.message.contains("8 Takte"), "{}", plan.message);

    // Exactly on a boundary the *next* one is taken, because the head start has to fit.
    let plan = s.record(1, "stimme", 96_000);
    assert_eq!(plan.commands[0], Command::StartRecord { track: 1, at: 192_000 });
}

/// An overdub is one pass of the existing loop, never the configured bar count - otherwise a layer
/// would be longer than what it is layered onto.
#[test]
fn an_overdub_covers_exactly_one_pass_of_the_existing_loop() {
    let s = scheduler(120.0, 8);
    let loop_len = 4 * 96_000;
    let plan = s.overdub(0, "gitarre", 100_000, loop_len, 2);
    assert_eq!(
        plan.commands,
        vec![
            Command::StartOverdub { track: 0, at: 192_000 },
            Command::StopRecord { track: 0, at: 192_000 + loop_len },
            Command::StartPlay { track: 0, at: 192_000 + loop_len },
        ]
    );
    assert!(plan.message.contains("Ebene 3"), "{}", plan.message);

    // On an empty track it behaves like a first take of the configured length.
    let plan = s.overdub(0, "gitarre", 100_000, 0, 0);
    assert_eq!(
        plan.commands[1],
        Command::StopRecord { track: 0, at: 192_000 + 8 * 96_000 }
    );
}

#[test]
fn stopping_means_three_different_things_depending_on_the_state() {
    let s = scheduler(120.0, 8);
    let armed = s.stop(0, "gitarre", 100_000, TrackState::Armed);
    assert!(matches!(armed.commands[0], Command::ClearTrack { .. }));
    assert!(armed.message.contains("abgebrochen"), "{}", armed.message);

    let recording = s.stop(0, "gitarre", 100_000, TrackState::Recording);
    assert_eq!(
        recording.commands,
        vec![
            Command::StopRecord { track: 0, at: 192_000 },
            Command::StartPlay { track: 0, at: 192_000 },
        ]
    );

    let playing = s.stop(0, "gitarre", 100_000, TrackState::Playing);
    assert!(matches!(playing.commands[0], Command::StopPlay { .. }));
    // Untimed-feeling actions still carry a timestamp, just not a quantised one.
    assert_eq!(playing.commands[0].at(), Some(100_000 + s.guard));
}

#[test]
fn the_position_estimate_follows_the_interface_clock() {
    let s = scheduler(120.0, 8);
    assert_eq!(s.estimated_pos(None), 0);
    assert_eq!(s.estimated_pos(Some((48_000, 100_000_000))), 48_000 + 4_800);
}

/// A fractional beat length is the case that catches an incrementally advanced grid; the plan must
/// still land on positions the timeline itself computes.
#[test]
fn odd_tempos_and_time_signatures_stay_on_the_timeline_grid() {
    let timeline = Timeline::new(RATE, bpm(137.0), TimeSignature::new(7, 8));
    let s = Scheduler::new(timeline, 5, 128);
    let plan = s.record(0, "t", 1_000_000);
    let Command::StartRecord { at: start, .. } = plan.commands[0] else {
        panic!("erstes Kommando ist die Aufnahme");
    };
    let bar = timeline.bar_index_at(start);
    assert_eq!(start, timeline.bar_start(bar), "Start liegt auf einer Taktgrenze");
    assert_eq!(
        plan.commands[1].at(),
        Some(timeline.position_of(bar + 5, 0)),
        "Ende liegt fuenf Takte spaeter, absolut gerechnet"
    );
}

#[test]
fn a_tempo_the_loop_cannot_carry_is_refused_in_german() {
    assert!(build_timeline(RATE, bpm(100.0), "100", 4, 4, 8, 827).is_ok());
    let err = build_timeline(RATE, bpm(500.0), "500", 4, 4, 8, 827)
        .expect_err("BPM ausserhalb 1..400");
    assert!(err.contains("400"), "{err}");
    let err = build_timeline(RATE, bpm(100.0), "100", 4, 3, 8, 827)
        .expect_err("Zaehlzeit 3 gibt es nicht");
    assert!(err.contains("Notenlaenge"), "{err}");
    // One bar at 400 BPM is 28800 samples, still longer than the compensation; a loop shorter than
    // the compensation is what check_loop exists for.
    let err = build_timeline(RATE, bpm(400.0), "400", 1, 4, 1, 20_000).expect_err("Loop zu kurz");
    assert!(err.contains("Latenzkompensation"), "{err}");
}

#[test]
fn track_definitions_are_checked_against_the_device() {
    let ok = resolve_tracks(&vec![config("stimme", 1), config("gitarre", 2)], 2).unwrap();
    assert_eq!(ok.len(), 2);
    assert_eq!(ok[0].channel, 0, "Kanal 1 am Geraet ist Index 0");
    assert_eq!(ok[1].channel, 1);

    for (configs, needle) in [
        (vec![config("stimme", 3)], "Eingang 3"),
        (vec![config("stimme", 0)], "ab 1"),
        (vec![config("  ", 1)], "ohne Namen"),
        (vec![config("a", 1), config("a", 2)], "eindeutig"),
        (vec![], "mindestens einen"),
    ] {
        let err = resolve_tracks(&configs, 2).expect_err(needle);
        assert!(err.contains(needle), "{err}");
    }
    assert!(resolve_tracks(&vec![config("a", 1)], 0).is_err(), "Geraet ohne Eingang");

    let many: Vec<TrackConfig> = (1..=MAX_TRACKS + 1).map(|i| config(&format!("t{i}"), 1)).collect();
    assert!(resolve_tracks(&many, 8).is_err(), "Obergrenze greift");
}

#[test]
fn a_play_starts_on_a_bar_and_a_clear_comes_soon() {
    let s = scheduler(120.0, 8);
    assert_eq!(s.next_bar(100_000), 192_000);
    assert_eq!(s.soon(100_000), 100_000 + s.guard);
    let play = s.play(1, "stimme", 100_000);
    assert_eq!(play.commands, vec![Command::StartPlay { track: 1, at: 192_000 }]);
    let clear = s.clear_track(1, "stimme", 100_000);
    assert_eq!(clear.commands, vec![Command::ClearTrack { track: 1, at: s.soon(100_000) }]);
    let all = s.clear_all(100_000);
    assert_eq!(all.commands, vec![Command::ClearAll { at: s.soon(100_000) }]);
    assert!(s.can_plan(100_000, 0));
    assert!(!s.can_plan(u64::MAX, 0));
    for kind in [PendingKind::Record, PendingKind::Overdub, PendingKind::Play, PendingKind::Stop] {
        assert!(!kind.label().is_empty());
    }
}

/// Beat after beat against the rounded real-valued grid.
#[test]
fn the_grid_is_the_rounded_multiple_of_the_beat() {
    for (tempo, metre) in [(100.0, (4, 4)), (137.0, (7, 8)), (73.3, (3, 4)), (399.5, (5, 16))] {
        let timeline = Timeline::new(RATE, bpm(tempo), TimeSignature::new(metre.0, metre.1));
        let beat = RATE as f64 * 60.0 / tempo * 4.0 / metre.1 as f64;
        for n in 0..2_000u64 {
            let start = timeline.beat_start(n);
            assert_eq!(start, (n as f64 * beat).round() as u64, "{tempo} Schlag {n}");
            assert_eq!(timeline.beat_index_at(start), n);
            if start > 0 {
                assert_eq!(timeline.beat_index_at(start - 1), n - 1);
            }
        }
        let found = timeline.locate(timeline.position_of(6, 2) + 5);
        assert_eq!((found.bar, found.beat, found.offset), (6, 2, 5));
        assert_eq!(timeline.span_bars(3, 2), timeline.bar_start(5) - timeline.bar_start(3));
        assert_eq!(timeline.bar_start_at_or_after(1), timeline.bar_start(1));
    }
}

#[test]
fn every_part_of_a_tempo_is_checked() {
    let four = TimeSignature::new(4, 4);
    assert_eq!(Timeline::validate(RATE, bpm(0.5), four), Err(TempoError::Bpm));
    assert_eq!(Timeline::validate(RATE, bpm(f64::NAN), four), Err(TempoError::Bpm));
    assert_eq!(Timeline::validate(RATE, bpm(400.0), four), Ok(()));
    assert!(matches!(
        Timeline::validate(RATE, bpm(100.0), TimeSignature::new(0, 4)),
        Err(TempoError::BeatsPerBar)
    ));
    assert_eq!(
        Timeline::validate(RATE, bpm(100.0), TimeSignature::new(4, 3)),
        Err(TempoError::BeatUnit(3))
    );
    assert!(matches!(Timeline::validate(0, bpm(100.0), four), Err(TempoError::Rate(0))));
    let timeline = Timeline::new(RATE, bpm(100.0), four);
    let faster = timeline.with_tempo(bpm(200.0), TimeSignature::new(3, 4)).unwrap();
    assert_eq!(faster.sample_rate(), RATE);
    assert_eq!(faster.beat_start(1), 14_400);
    assert_eq!(faster.signature(), TimeSignature::new(3, 4));
    assert_eq!(faster.bpm(), bpm(200.0));
    for error in [TempoError::Bpm, TempoError::BeatsPerBar, TempoError::BeatUnit(3)] {
        assert!(!error.message("100").is_empty());
    }
}

#[test]
fn a_loop_reserves_its_bars_plus_a_margin() {
    let timeline = Timeline::new(RATE, bpm(120.0), TimeSignature::new(4, 4));
    assert_eq!(loop_capacity(&timeline, 8), 8 * 96_000 + 64);
    assert!(check_loop(&timeline, 8, 827).is_ok());
    assert!(check_loop(&timeline, 0, 827).is_err());
    let (found, frames) = grid(RATE, bpm(120.0), "120", TimeSignature::new(4, 4), 8, 827).unwrap();
    assert_eq!(found, timeline);
    assert_eq!(frames, 8 * 96_000 + 64);
    assert_eq!(max_memory_bytes(1_000, 2, 3), 1_000 * 4 * (2 * 32 + 3));
}

/// The megabytes of the line are what a division in double precision prints.
#[test]
fn the_limits_line_prints_megabytes_like_a_float_would() {
    for (capacity, tracks, spares) in
        [(768_064u64, 2usize, 3usize), (1, 1, 0), (123_457, 8, 3), (30_000_000, 8, 3)]
    {
        let bytes = max_memory_bytes(capacity, tracks, spares) as f64;
        assert_eq!(
            limits_line(capacity, tracks, spares),
            format!(
                "Ebenen:   bis zu 32 je Track, {:.1} MB je Ebene, hoechstens {:.0} MB fuer {} Tracks",
                (capacity * 4) as f64 / 1_048_576.0,
                bytes / 1_048_576.0,
                tracks
            )
        );
    }
}

/// On the loop grid a first take starts where a loop of the configured length would start over.
#[test]
fn a_recording_on_the_loop_grid_waits_for_the_loop() {
    let s = scheduler(120.0, 8);
    let plan = s.record_on(Quantize::Loop, 0, "gitarre", 100_000);
    assert_eq!(
        plan.commands,
        vec![
            Command::StartRecord { track: 0, at: 8 * 96_000 },
            Command::StopRecord { track: 0, at: 16 * 96_000 },
            Command::StartPlay { track: 0, at: 16 * 96_000 },
        ]
    );
    assert!(plan.message.contains("Takt 9"), "{}", plan.message);
    let plan = s.record_on(Quantize::Bar, 0, "gitarre", 100_000);
    assert_eq!(plan.commands, s.record(0, "gitarre", 100_000).commands);
}

/// On the loop grid a layer lies over its loop: it starts with one of its passes.
#[test]
fn a_layer_on_the_loop_grid_starts_with_a_pass_of_its_loop() {
    let s = scheduler(120.0, 8);
    let loop_len = 4 * 96_000;
    let plan = s.overdub_on(Quantize::Loop, 0, "gitarre", 700_000, 192_000, loop_len, 1);
    assert_eq!(
        plan.commands,
        vec![
            Command::StartOverdub { track: 0, at: 192_000 + 2 * loop_len },
            Command::StopRecord { track: 0, at: 192_000 + 3 * loop_len },
            Command::StartPlay { track: 0, at: 192_000 + 3 * loop_len },
        ]
    );
    assert!(plan.message.contains("Ebene 2 ab Takt 11"), "{}", plan.message);
    // Before the loop has begun, its beginning is the next pass.
    let plan = s.overdub_on(Quantize::Loop, 0, "gitarre", 100_000, 192_000, loop_len, 1);
    assert_eq!(plan.commands[0], Command::StartOverdub { track: 0, at: 192_000 });
    let plan = s.overdub_on(Quantize::Bar, 0, "gitarre", 700_000, 192_000, loop_len, 1);
    assert_eq!(plan.commands[0], Command::StartOverdub { track: 0, at: 768_000 });
    assert!(s.can_plan_on(Quantize::Loop, 700_000, 192_000, loop_len));
    assert!(!s.can_plan_on(Quantize::Loop, u64::MAX, 192_000, loop_len));
}

#[test]
fn a_take_fits_its_buffer_from_every_bar() {
    // 97 BPM: no bar is a whole number of samples long.
    let t = Timeline::new(RATE, bpm(97.0), TimeSignature::new(7, 8));
    let first = t.span_bars(0, 3);
    assert_eq!(loop_capacity(&t, 3), first + 64);
    for bar in 0..500u64 {
        assert!(t.span_bars(bar, 3) <= first + 1, "Takt {bar}");
    }
}

#[test]
fn a_loop_passes_exactly_if_it_outlasts_the_compensation() {
    let t = Timeline::new(RATE, bpm(120.0), TimeSignature::new(4, 4));
    assert_eq!(check_loop(&t, 0, 0), Err("--bars muss mindestens 1 sein.".to_string()));
    assert_eq!(check_loop(&t, 1, 95_999), Ok(()));
    let err = check_loop(&t, 1, 96_000).expect_err("zu kurz");
    assert!(err.contains("Latenzkompensation"), "{err}");
    let err = check_loop(&t, 1, u64::MAX).expect_err("zu kurz");
    assert!(err.contains("Latenzkompensation"), "{err}");
}

/// A loop nobody could count is as long as positions go.
#[test]
fn a_loop_beyond_counting_outlasts_every_compensation_but_the_last() {
    let t = Timeline::new(u32::MAX, bpm(1.0), TimeSignature::new(u32::MAX, 1));
    assert_eq!(t.length_of_bars(u32::MAX), u64::MAX);
    assert_eq!(check_loop(&t, u32::MAX, u64::MAX - 1), Ok(()));
    assert!(check_loop(&t, u32::MAX, u64::MAX).is_err());
    let t = Timeline::new(RATE, bpm(120.0), TimeSignature::new(4, 4));
    assert_eq!(t.length_of_bars(8), 8 * 96_000);
}
