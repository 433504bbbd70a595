use looper_engine::audio::DeviceOpts;
use looper_engine::calibrate::{
    analyse_loop, blanking, check_clock, check_measurement, check_noise, check_runs, detect_onsets,
    device_flags, mean_of, nearest_beat, plan_run, recommend, verdict, ClickAnalysis, Mean,
    NoiseError, Totals, GOOD_ENOUGH_SAMPLES, MAX_NOISE_PEAK, MAX_THRESHOLD,
};
use looper_engine::click::{ClickGen, ClickSpec};
use looper_engine::command::{Command, TrackState, TrackStatus};
use looper_engine::measurement::{
    measuring_engine, recommendation_lines, run_report, Measurement, Stage,
};
use looper_engine::metro::Metronome;
use looper_engine::schedule::Scheduler;
use looper_engine::single::Single;
use looper_engine::start::Opened;
use looper_engine::timeline::{Bpm, TimeSignature, Timeline};

const RATE: u32 = 48_000;

fn single(x: f32) -> Single {
    Single { bits: x.to_bits() }
}

fn threshold() -> Single {
    single(0.02)
}

fn bpm(value: f64) -> Bpm {
    Bpm { bits: value.to_bits() }
}

fn timeline() -> Timeline {
    Timeline::new(RATE, bpm(100.0), TimeSignature::new(4, 4))
}

fn bits(buf: &[f32]) -> Vec<u32> {
    buf.iter().map(|x| x.to_bits()).collect()
}

fn mean(a: &ClickAnalysis) -> Option<f64> {
    a.mean().map(|m| m.sum as f64 / m.count as f64)
}

fn analyse(buf: &[f32], origin: u64, t: &Timeline, blanking: u64) -> ClickAnalysis {
    analyse_loop(&bits(buf), origin, t, threshold(), blanking)
}

const CLICK_AMP: f32 = 0.5;

/// The metronome's tone: a sine that sets in within a millisecond and dies away over 30, 1600 Hz on
/// the first beat of a bar and 800 Hz on the others.
fn sample_at(metro: &Metronome, t: &Timeline, pos: u64) -> f32 {
    let Some(tone) = metro.tone_at(t, pos) else {
        return 0.0;
    };
    let hz = if tone.downbeat { 1_600.0 } else { 800.0 };
    let phase = std::f64::consts::TAU * hz * tone.offset as f64 / RATE as f64;
    let decay = (-(1000f64.ln()) / metro.tone_len() as f64).exp();
    let attack = (tone.offset as f32 / (RATE as f32 * 0.001)).min(1.0);
    (phase.sin() * decay.powi(tone.offset as i32)) as f32 * attack * CLICK_AMP
}

/// A loop of `bars` bars starting at `origin`, with a single-sample impulse `shift` samples away
/// from every beat boundary. `shift` may be negative.
fn loop_with_impulses(timeline: &Timeline, origin: u64, bars: u32, shift: i64) -> Vec<f32> {
    let len = timeline.span_bars(timeline.bar_index_at(origin), bars);
    let mut buf = vec![0.0f32; len as usize];
    let mut beat = timeline.beat_index_at(origin);
    while timeline.beat_start(beat) < origin + len {
        let pos = timeline.beat_start(beat) as i64 + shift;
        let idx = pos - origin as i64;
        if idx >= 0 && (idx as u64) < len {
            buf[idx as usize] = 0.9;
        }
        beat += 1;
    }
    buf
}

#[test]
fn impulses_exactly_on_the_grid_give_zero_deviation() {
    let t = timeline();
    let origin = t.bar_start(4);
    let buf = loop_with_impulses(&t, origin, 4, 0);

    let a = analyse(&buf, origin, &t, 2_880);
    assert_eq!(a.expected, 16, "vier Takte zu vier Schlaegen");
    assert_eq!(a.matched, 16, "jeder Klick muss gefunden werden");
    assert_eq!(a.spurious, 0);
    assert!(a.conclusive());
    for d in &a.deviations {
        assert_eq!(*d, 0);
    }
    assert_eq!(mean(&a), Some(0.0));
}

#[test]
fn impulses_shifted_by_forty_samples_give_forty_with_the_right_sign() {
    let t = timeline();
    let origin = t.bar_start(4);

    // Late: the click sits behind its beat, the compensation subtracted too little, the value has
    // to grow. That is the sign the recommendation depends on.
    let late = loop_with_impulses(&t, origin, 4, 40);
    let a = analyse(&late, origin, &t, 2_880);
    assert_eq!(a.matched, 16);
    assert_eq!(a.spurious, 0);
    assert_eq!(mean(&a), Some(40.0));
    for d in &a.deviations {
        assert_eq!(*d, 40);
    }
    assert_eq!(recommend(827, &a.mean().unwrap()), 867);

    // Early: mirrored, including the sign. The click of the very first beat falls 40 samples before
    // the start of the loop and is therefore physically not in the buffer - 15 of 16.
    let early = loop_with_impulses(&t, origin, 4, -40);
    let b = analyse(&early, origin, &t, 2_880);
    assert_eq!(b.matched, 15, "der erste Klick liegt vor dem Loop-Anfang");
    assert_eq!(b.spurious, 0);
    assert!(b.conclusive(), "15 von 16 sind immer noch aussagekraeftig");
    assert_eq!(mean(&b), Some(-40.0));
    assert_eq!(recommend(827, &b.mean().unwrap()), 787);
}

/// The most dangerous misreading: an empty loop must never look like a perfect result. No detections
/// means no deviations, no mean and no recommendation.
#[test]
fn an_empty_loop_reports_no_clicks_instead_of_a_perfect_result() {
    let t = timeline();
    let origin = t.bar_start(4);
    let len = t.span_bars(4, 4) as usize;

    let silent = vec![0.0f32; len];
    let a = analyse(&silent, origin, &t, 2_880);
    assert_eq!(a.expected, 16);
    assert_eq!(a.matched, 0, "in Stille darf nichts erkannt werden");
    assert!(a.deviations.is_empty());
    assert_eq!(mean(&a), None, "ohne Treffer gibt es keinen Mittelwert");
    assert!(!a.conclusive(), "ein leerer Loop ist niemals ein Beleg");

    // Just noise below the threshold counts the same way.
    let mut noisy = vec![0.0f32; len];
    for (i, s) in noisy.iter_mut().enumerate() {
        *s = if i % 2 == 0 { 0.005 } else { -0.005 };
    }
    let b = analyse(&noisy, origin, &t, 2_880);
    assert_eq!(b.matched, 0);
    assert_eq!(mean(&b), None);
    assert!(!b.conclusive());

    // And a loop where only a single click made it through is not conclusive either.
    let mut one = vec![0.0f32; len];
    one[0] = 0.9;
    let c = analyse(&one, origin, &t, 2_880);
    assert_eq!(c.matched, 1);
    assert_eq!(mean(&c), Some(0.0), "die eine Abweichung ist rechnerisch 0 ...");
    assert!(!c.conclusive(), "... aber ein Treffer von 16 belegt nichts");
}

/// A click tone, analysed with the real threshold: a few samples late, always positive, and the same
/// for downbeat (1600 Hz) and offbeat (800 Hz).
#[test]
fn the_real_click_is_detected_a_few_samples_late_on_every_beat() {
    let t = timeline();
    let metro = Metronome::new(RATE);
    let origin = t.bar_start(4);
    let len = t.span_bars(4, 4);
    let buf: Vec<f32> = (0..len).map(|i| sample_at(&metro, &t, origin + i)).collect();

    let a = analyse(&buf, origin, &t, blanking(&t));
    assert_eq!(a.matched, 16, "jeder Klick wird gefunden");
    assert_eq!(a.spurious, 0, "kein Nachschwinger wird doppelt gezaehlt");
    let mean = mean(&a).expect("Treffer vorhanden");
    assert!(
        mean > 0.0 && mean <= GOOD_ENOUGH_SAMPLES as f64,
        "systematischer Restfehler soll positiv und klein sein, ist {mean}"
    );

    // Downbeat and offbeat must not differ meaningfully - the detection may not depend on the click
    // frequency. Every fourth deviation belongs to a downbeat.
    let downbeats: Vec<f64> = a.deviations.iter().step_by(4).map(|d| *d as f64).collect();
    let offbeats: Vec<f64> = a
        .deviations
        .iter()
        .enumerate()
        .filter(|(i, _)| i % 4 != 0)
        .map(|(_, d)| *d as f64)
        .collect();
    let mean_of = |v: &[f64]| v.iter().sum::<f64>() / v.len() as f64;
    assert!(
        (mean_of(&downbeats) - mean_of(&offbeats)).abs() <= 3.0,
        "Downbeat {} und Offbeat {} duerfen sich kaum unterscheiden",
        mean_of(&downbeats),
        mean_of(&offbeats)
    );
}

/// A click shifted by a known amount: the analysis has to report exactly that shift, which is what
/// makes the recommendation a correction and not a guess.
#[test]
fn a_wrong_compensation_value_shows_up_as_its_own_difference() {
    let t = timeline();
    let metro = Metronome::new(RATE);
    let origin = t.bar_start(4);
    let len = t.span_bars(4, 4);
    // Engine compensates R, hardware does R_true = R + 40, so a sample stored at musical position m
    // actually carries the click of position m - 40.
    let error = 40i64;
    let buf: Vec<f32> = (0..len)
        .map(|i| sample_at(&metro, &t, (origin as i64 + i as i64 - error).max(0) as u64))
        .collect();

    let a = analyse(&buf, origin, &t, 2_880);
    let measured = mean(&a).expect("Treffer vorhanden");
    // The onset bias of a few samples rides on top of the 40, and nothing else.
    assert!(
        (measured - error as f64).abs() <= GOOD_ENOUGH_SAMPLES as f64,
        "erwartet rund {error} Samples, gemessen {measured}"
    );
    assert!(recommend(827, &a.mean().unwrap()) >= 863);
}

#[test]
fn onset_detection_blanks_the_tail_of_a_click() {
    // Three impulses, the middle one inside the blanking window of the first.
    let mut buf = vec![0.0f32; 10_000];
    buf[100] = 0.9;
    buf[200] = 0.9;
    buf[5_000] = 0.9;
    let onsets = detect_onsets(&bits(&buf), threshold(), 1_000);
    assert_eq!(onsets, vec![100, 5_000]);
}

#[test]
fn onsets_far_from_any_beat_are_counted_as_spurious() {
    let t = timeline();
    let origin = t.bar_start(4);
    let mut buf = loop_with_impulses(&t, origin, 4, 0);
    // Half a beat away from the grid: not a mistimed click, so it must not enter the mean.
    buf[14_400] = 0.9;

    let a = analyse(&buf, origin, &t, 2_880);
    assert_eq!(a.matched, 16);
    assert_eq!(a.spurious, 1);
    assert_eq!(mean(&a), Some(0.0), "der Ausreisser verfaelscht nichts");
}

#[test]
fn click_sits_exactly_on_the_beat_grid() {
    let t = Timeline::new(48_000, bpm(137.0), TimeSignature::new(7, 8));
    let m = Metronome::new(48_000);
    for beat in 0..200u64 {
        let start = t.beat_start(beat);
        // The very first sample of the envelope is silent by construction (attack 0, sin 0), the
        // second one is not - that is where the tone actually begins.
        assert_eq!(sample_at(&m, &t, start), 0.0);
        assert_ne!(sample_at(&m, &t, start + 1), 0.0);
        // Just before a beat the previous tone must have died away completely.
        if start > 2000 {
            assert_eq!(sample_at(&m, &t, start - 1), 0.0);
        }
    }
}

#[test]
fn downbeat_differs_from_offbeat() {
    let t = Timeline::new(48_000, bpm(120.0), TimeSignature::new(4, 4));
    let m = Metronome::new(48_000);
    let down = sample_at(&m, &t, t.bar_start(3) + 20);
    let off = sample_at(&m, &t, t.position_of(3, 1) + 20);
    assert_ne!(down, off);
}

#[test]
fn amplitude_stays_inside_the_headroom() {
    let t = Timeline::new(48_000, bpm(120.0), TimeSignature::new(4, 4));
    let m = Metronome::new(48_000);
    for pos in 0..200_000u64 {
        assert!(sample_at(&m, &t, pos).abs() <= CLICK_AMP);
    }
}

#[test]
fn a_tone_lasts_thirty_milliseconds() {
    for rate in [1u32, 8_000, 44_100, 48_000, 96_000, 192_000] {
        let want = (rate as f64 * 0.03).round().max(1.0) as u64;
        assert_eq!(Metronome::new(rate).tone_len(), want, "{rate}");
    }
}

#[test]
fn the_nearest_beat_may_lie_ahead() {
    let t = timeline();
    let near = nearest_beat(&t, 28_800 * 3 + 10);
    assert_eq!((near.beat, near.distance, near.early), (3, 10, false));
    let near = nearest_beat(&t, 28_800 * 3 - 10);
    assert_eq!((near.beat, near.distance, near.early), (3, 10, true));
}

#[test]
fn the_noise_test_separates_silence_noise_and_a_threshold_out_of_reach() {
    assert_eq!(check_noise(48_000, single(0.003), threshold()), Ok(()));
    assert_eq!(check_noise(0, single(0.0), threshold()), Err(NoiseError::Silence));
    assert_eq!(
        check_noise(48_000, Single { bits: MAX_NOISE_PEAK + 1 }, threshold()),
        Err(NoiseError::TooLoud)
    );
    assert_eq!(
        check_noise(48_000, single(0.01), Single { bits: MAX_THRESHOLD + 1 }),
        Err(NoiseError::ThresholdTooHigh)
    );
}

#[test]
fn a_measurement_needs_one_clock_and_a_loop() {
    assert!(check_clock(48_000, 48_000).is_ok());
    let err = check_clock(48_000, 44_100).expect_err("zwei Takte");
    assert!(err.contains("44100"), "{err}");
    let (t, frames) = check_measurement(5, RATE, RATE, bpm(100.0), "100", 4, 827).unwrap();
    assert_eq!(t, timeline());
    assert_eq!(frames, 16 * 28_800 + 64);
    assert_eq!(check_runs(0), Err("--runs muss mindestens 1 sein.".to_string()));
    assert_eq!(check_runs(1), Ok(()));
    assert!(check_measurement(0, RATE, RATE, bpm(100.0), "100", 4, 827).is_err());
    assert!(check_measurement(5, RATE, RATE, bpm(500.0), "500", 4, 827).is_err());

    let s = Scheduler::new(t, 4, 128);
    let run = plan_run(&s, 10_000, 827);
    assert_eq!(run.start, 115_200);
    assert_eq!(run.bar, 1);
    assert_eq!(run.end, 115_200 * 5);
}

#[test]
fn means_are_exact_and_recommendations_rounded() {
    assert_eq!(mean_of(&vec![]), None);
    assert_eq!(mean_of(&vec![3, -5, 1]), Some(Mean { sum: -1, count: 3 }));
    for (sum, count) in [(7i128, 2u64), (-7, 2), (5, 3), (-5, 3), (-9_000, 4), (0, 1)] {
        let want = (827.0 + sum as f64 / count as f64).round().max(0.0) as u64;
        assert_eq!(recommend(827, &Mean { sum, count }), want, "{sum}/{count}");
    }
    assert!(verdict(&Mean { sum: 40, count: 2 }).contains("20"));
    assert!(!verdict(&Mean { sum: 1, count: 2 }).is_empty());
}

#[test]
fn runs_are_added_up_before_they_are_judged() {
    let t = timeline();
    let origin = t.bar_start(4);
    let mut totals = Totals::new();
    for shift in [38, 42] {
        let a = analyse(&loop_with_impulses(&t, origin, 4, shift), origin, &t, 2_880);
        totals.count(&a);
    }
    assert_eq!((totals.expected, totals.matched, totals.spurious), (32, 32, 0));
    let result = totals.conclude(827).unwrap();
    assert_eq!(result.latency, 867);
    assert!(result.conclusive);
    assert!(Totals::new().conclude(827).is_err(), "ohne Treffer keine Empfehlung");
}

#[test]
fn a_counted_click_ends_after_its_bars() {
    let spec = ClickSpec { bpm: bpm(120.0), beats_per_bar: 4, beat_unit: 4, bars: 2 };
    assert!(spec.validate("120").is_ok());
    assert!(spec.length_text().contains('2'), "{}", spec.length_text());
    assert!(ClickSpec { bpm: bpm(0.0), ..spec }.validate("0").is_err());
    let t = Timeline::new(RATE, bpm(120.0), TimeSignature::new(4, 4));
    let mut click = ClickGen::new(spec, RATE);
    let mut starts = Vec::new();
    for frame in 0..300_000u64 {
        if click.is_done() {
            break;
        }
        if let Some(tone) = click.next_tone() {
            if tone.offset == 0 {
                starts.push((frame, tone.downbeat));
            }
        }
    }
    assert!(click.is_done());
    let want: Vec<(u64, bool)> = (0..8).map(|n| (t.beat_start(n), n % 4 == 0)).collect();
    assert_eq!(starts, want);
}

#[test]
fn the_flags_to_repeat_a_measurement_name_the_device() {
    let dev = DeviceOpts {
        host: "asio".to_string(),
        device: Some("Focusrite USB".to_string()),
        rate: 48_000,
        buffer: 128,
        in_channels: None,
        out_channels: None,
        force_buffer: false,
    };
    let flags = device_flags(&dev);
    assert!(flags.contains("asio") && flags.contains("Focusrite USB"), "{flags}");
    assert!(flags.contains("48000") && flags.contains("128"), "{flags}");
}

/// One measurement from silence to the recommendation: two runs with the clicks forty samples late.
#[test]
fn a_measurement_goes_from_silence_to_a_recommendation() {
    let t = timeline();
    let mut m = Measurement::new(t, 4, 128, 827, 2);
    assert_eq!(m.stage, Stage::Noise);
    assert_eq!(m.hear_noise(0, single(0.0), threshold()), Err(NoiseError::Silence));
    assert_eq!(
        m.hear_noise(48_000, single(0.001), threshold()),
        Ok(Command::SetClick { on: true })
    );
    assert_eq!(m.stage, Stage::Idle);

    let mut est = 10_000;
    for n in 1..=2 {
        assert!(m.can_run(est));
        let (run, commands) = m.next_run(est).expect("ein Lauf steht aus");
        assert_eq!(
            commands,
            vec![
                Command::StartRecord { track: 0, at: run.start },
                Command::StopRecord { track: 0, at: run.end },
            ]
        );
        assert_eq!(run.end - run.start, 4 * 4 * 28_800);
        assert_eq!(run.ahead, run.end + 827 - est);

        let mut ts = TrackStatus::default();
        ts.state = TrackState::Recording;
        assert_eq!(m.observe(&ts), None);
        ts.state = TrackState::Ready;
        ts.loop_len = run.end - run.start;
        assert_eq!(m.observe(&ts), Some(Command::RemoveLayer { track: 0, layer: 0 }));
        assert_eq!(m.observe(&ts), None, "nur einmal");

        let short = m.collect(&[0; 3]).expect_err("zu kurz");
        assert_eq!(
            short,
            "Der zurueckgegebene Puffer ist mit 3 Samples kuerzer als der Loop (460800 Samples)."
        );
        let mut buffer = bits(&loop_with_impulses(&t, run.start, 4, 40));
        buffer.resize(buffer.len() + 64, 0);
        let analysis = m.collect(&buffer).expect("lang genug");
        assert_eq!((analysis.expected, analysis.matched), (16, 16));
        let lines = run_report(n, 2, &run, 4, &analysis, "-6.0 dBFS");
        assert_eq!(lines.len(), 2);
        assert!(lines[0].starts_with(&format!("----- Lauf {n} von 2 (Takt ")), "{}", lines[0]);
        assert!(lines[1].contains("16 von 16 erwartet"), "{}", lines[1]);
        est = run.end + 900;
    }
    assert!(m.next_run(est).is_none(), "alle Laeufe sind gezaehlt");
    assert!(m.can_conclude());
    let found = m.conclude().expect("Klicks gefunden");
    assert_eq!(found.latency, 867);
    assert!(found.conclusive);
    assert!(!recommendation_lines(&found, "--host asio", "100", 4).is_empty());
}

#[test]
fn a_measurement_of_silence_recommends_nothing() {
    let t = timeline();
    let mut m = Measurement::new(t, 1, 128, 827, 1);
    m.hear_noise(48_000, single(0.0), threshold()).unwrap();
    assert!(m.can_run(0));
    let (run, _) = m.next_run(0).unwrap();
    let mut ts = TrackStatus::default();
    ts.state = TrackState::Ready;
    ts.loop_len = run.end - run.start;
    m.observe(&ts);
    let analysis = m.collect(&vec![0; ts.loop_len as usize]).unwrap();
    assert_eq!((analysis.expected, analysis.matched), (4, 0));
    let lines = run_report(1, 1, &run, 1, &analysis, "-inf dBFS");
    assert_eq!(lines.len(), 4, "{lines:?}");
    assert!(lines[2].contains("zu wenige Klicks"));
    assert!(m.conclude().expect_err("nichts gehoert").contains("KEINE perfekte Kalibrierung"));
}

#[test]
fn a_measurement_runs_on_one_silent_track() {
    let opened = Opened {
        input_rate: RATE,
        output_rate: RATE,
        input_channels: 2,
        output_channels: 2,
        buffer_frames: 128,
    };
    let parts = measuring_engine(&opened, timeline(), 4 * 28_800, 827);
    assert_eq!(parts.core.track_count(), 1);
    assert!(!parts.core.click());
    assert!(!parts.core.track(0).monitor);
    assert_eq!(parts.core.position(), 0);
    assert_eq!(parts.scratch_frames, 128 * 16);
}

/// Every match belongs to one beat of the loop and lies within a quarter of a beat of it.
#[test]
fn a_match_is_one_of_the_beats_and_close_to_it() {
    let t = timeline();
    let origin = t.bar_start(1);
    let mut buf = loop_with_impulses(&t, origin, 2, 300);
    // One click in the middle of a beat, one right behind another.
    buf[14_400] = 0.8;
    buf[28_800 + 300 + 2_000] = 0.8;
    let a = analyse(&buf, origin, &t, 480);
    assert_eq!(a.expected, 8);
    assert!(a.matched <= a.expected);
    assert_eq!(a.matched, a.deviations.len());
    assert_eq!(a.spurious, 2);
    assert!(a.deviations.iter().all(|d| d.abs() <= 28_800 / 4), "{:?}", a.deviations);
}
