use looper_engine::delay::{DelayTap, MAX_DELAY_SECONDS, MIN_SYNC_BPM};
use looper_engine::fx::DelayNote;
use looper_engine::timeline::Bpm;

const RATE: u32 = 48_000;

fn bpm(value: f64) -> Bpm {
    Bpm { bits: value.to_bits() }
}

fn delay_at(tempo: f64, note: DelayNote) -> DelayTap {
    let mut d = DelayTap::new(RATE, note);
    d.set_tempo(bpm(tempo));
    d
}

/// Where the repeat of an impulse comes out of a line of its own, read and written the way the tap
/// says.
fn echo_of(tap: &mut DelayTap, within: u64) -> Option<u64> {
    let mut line = vec![0.0f32; tap.line_len() as usize];
    let mut write: usize = 0;
    for i in 0..within {
        let x = if i == 0 { 1.0 } else { 0.0 };
        let wet = line[tap.read_index(tap.tap_samples()) as usize];
        line[write] = x;
        write = (write + 1) % line.len();
        tap.advance();
        if i > 0 && wet.abs() > 1e-6 {
            return Some(i);
        }
    }
    None
}

/// 120 BPM, quarter note: the repeat of an impulse sits exactly 24 000 samples later. Not "about",
/// exactly.
#[test]
fn a_quarter_note_at_120_bpm_repeats_after_exactly_24000_samples() {
    let mut d = delay_at(120.0, DelayNote::Quarter);
    assert_eq!(d.tap_samples(), 24_000);
    let echo_at = echo_of(&mut d, 60_000);
    assert_eq!(echo_at, Some(24_000), "Wiederholung exakt eine Viertel spaeter");
}

#[test]
fn every_note_value_lands_on_its_own_grid() {
    // 100 BPM at 48 kHz: a quarter is 28 800 samples.
    for (note, want) in [
        (DelayNote::Quarter, 28_800u64),
        (DelayNote::DottedEighth, 21_600),
        (DelayNote::Eighth, 14_400),
        (DelayNote::TripletEighth, 9_600),
    ] {
        let d = delay_at(100.0, note);
        assert_eq!(d.tap_samples(), want, "{}", note.label());
    }
}

/// The size the line is promised to have, and the clamp that protects it.
#[test]
fn the_line_holds_a_quarter_note_at_the_slowest_supported_tempo() {
    let d = DelayTap::new(RATE, DelayNote::Quarter);
    assert_eq!(d.line_len(), 96_002);
    assert_eq!((MIN_SYNC_BPM, MAX_DELAY_SECONDS), (30, 2));
    // Exactly at 30 BPM the quarter note still fits.
    let mut d = delay_at(30.0, DelayNote::Quarter);
    assert_eq!(d.tap_samples(), 96_000);
    // Slower than that it is clamped instead of writing out of bounds. The new tap arrives after
    // the crossfade.
    d.set_tempo(bpm(5.0));
    d.finish_fade();
    assert_eq!(d.tap_samples(), d.line_len() - 1);
}

/// A tempo change fades from one tap to the other.
#[test]
fn a_tempo_change_crossfades_instead_of_jumping() {
    let mut d = delay_at(120.0, DelayNote::Quarter);
    for _ in 0..90_000u64 {
        d.advance();
    }
    d.set_tempo(bpm(90.0));
    assert_ne!(d.tap_samples(), 32_000, "der neue Tap ist noch nicht aktiv");
    assert!(d.is_fading());
    assert_eq!(d.target_tap_samples(), 32_000);
    d.finish_fade();
    assert!(!d.is_fading());
    assert_eq!(d.tap_samples(), 32_000, "danach steht der neue Tap");
}

#[test]
fn note_values_survive_the_round_trip_through_their_labels() {
    for note in DelayNote::all() {
        assert_eq!(DelayNote::parse(note.label()), Some(note), "{}", note.label());
    }
    assert_eq!(DelayNote::parse("Triole"), Some(DelayNote::TripletEighth));
    assert_eq!(DelayNote::parse("halbe"), None);
}

/// An unrounded tempo: the tap is the nearest whole sample.
#[test]
fn a_tap_is_rounded_to_the_nearest_sample() {
    for tempo in [61.0, 73.3, 97.7, 131.9, 240.0, 399.5] {
        for (note, share) in [
            (DelayNote::Quarter, 1.0),
            (DelayNote::DottedEighth, 0.75),
            (DelayNote::Eighth, 0.5),
            (DelayNote::TripletEighth, 1.0 / 3.0),
        ] {
            let want = (RATE as f64 * 60.0 / tempo * share).round() as u64;
            assert_eq!(delay_at(tempo, note).tap_samples(), want, "{tempo} {}", note.label());
        }
    }
}

#[test]
fn a_note_value_changed_while_playing_moves_the_tap() {
    let mut d = delay_at(120.0, DelayNote::Quarter);
    d.set_note(DelayNote::Eighth);
    assert_eq!(d.note(), DelayNote::Eighth);
    d.finish_fade();
    assert_eq!(d.tap_samples(), 12_000);
}

/// A silenced line is written from its start again, and a running crossfade is given up.
#[test]
fn a_cleared_line_starts_over() {
    let mut d = delay_at(120.0, DelayNote::Quarter);
    for _ in 0..100 {
        d.advance();
    }
    assert_eq!(d.read_index(0), 100);
    d.set_note(DelayNote::Eighth);
    assert!(d.is_fading());
    assert_eq!(d.target_tap_samples(), 12_000);
    d.clear();
    assert!(!d.is_fading());
    assert_eq!(d.read_index(0), 0);
    assert_eq!((d.tap_samples(), d.target_tap_samples()), (24_000, 24_000));
    assert_eq!(d.note(), DelayNote::Eighth);
}
