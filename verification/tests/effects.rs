use looper_engine::frame::Frame;
use looper_engine::fx::{
    BandKind, BandSettings, Chain, ChainSettings, CompSettings, DelayNote, FxParam, FxPreset,
    FxSlot, FxStatus, Gate,
};
use looper_engine::single::Single;
use looper_engine::timeline::Bpm;

const RATE: u32 = 48_000;

fn single(x: f32) -> Single {
    Single { bits: x.to_bits() }
}

fn float(x: Single) -> f32 {
    f32::from_bits(x.bits)
}

fn bpm(value: f64) -> Bpm {
    Bpm { bits: value.to_bits() }
}

/// A second-order section with the coefficients of the Audio EQ Cookbook.
struct Section {
    b: [f32; 3],
    a: [f32; 2],
    x: [f32; 2],
    y: [f32; 2],
}

impl Section {
    fn new(b: [f32; 3], a: [f32; 3]) -> Section {
        Section {
            b: [b[0] / a[0], b[1] / a[0], b[2] / a[0]],
            a: [a[1] / a[0], a[2] / a[0]],
            x: [0.0; 2],
            y: [0.0; 2],
        }
    }

    fn high_pass(hz: f32) -> Section {
        let (sin, cos) = (std::f32::consts::TAU * hz / RATE as f32).sin_cos();
        let alpha = sin / std::f32::consts::SQRT_2;
        let half = (1.0 + cos) * 0.5;
        Section::new([half, -2.0 * half, half], [1.0 + alpha, -2.0 * cos, 1.0 - alpha])
    }

    fn band(band: &BandSettings) -> Section {
        let root = 10f32.powf(float(band.gain_db) / 40.0);
        let (sin, cos) = (std::f32::consts::TAU * float(band.hz) / RATE as f32).sin_cos();
        if band.kind == BandKind::Peak {
            let alpha = sin / (2.0 * float(band.q));
            return Section::new(
                [1.0 + alpha * root, -2.0 * cos, 1.0 - alpha * root],
                [1.0 + alpha / root, -2.0 * cos, 1.0 - alpha / root],
            );
        }
        let side = if band.kind == BandKind::HighShelf { 1.0 } else { -1.0 };
        let slope = 2.0 * root.sqrt() * sin * 0.5 * std::f32::consts::SQRT_2;
        let (up, down) = (root + 1.0, root - 1.0);
        Section::new(
            [
                root * (up + side * down * cos + slope),
                -2.0 * side * root * (down + side * up * cos),
                root * (up + side * down * cos - slope),
            ],
            [
                up - side * down * cos + slope,
                2.0 * side * (down - side * up * cos),
                up - side * down * cos - slope,
            ],
        )
    }

    fn process(&mut self, x: f32) -> f32 {
        let y = self.b[0] * x + self.b[1] * self.x[0] + self.b[2] * self.x[1]
            - self.a[0] * self.y[0]
            - self.a[1] * self.y[1];
        self.x = [x, self.x[0]];
        self.y = [y, self.y[0]];
        y
    }
}

/// The high-pass and the equaliser of a chain, built from what the chain has been set to.
fn filters_only(preset: FxPreset) -> Vec<Section> {
    let mut chain = Chain::new(RATE);
    chain.load_preset(preset);
    chain.set_enabled(FxSlot::Comp, false);
    chain.set_enabled(FxSlot::Delay, false);
    chain.set_enabled(FxSlot::Reverb, false);
    let settings = chain.settings();
    let mut sections = Vec::new();
    if chain.enabled(FxSlot::HighPass) {
        sections.push(Section::high_pass(float(settings.high_pass_hz)));
    }
    if chain.enabled(FxSlot::Eq) {
        sections.extend(settings.bands.iter().map(Section::band));
    }
    sections
}

fn sine(hz: f32, i: usize, amplitude: f32) -> f32 {
    amplitude * (std::f32::consts::TAU * hz * i as f32 / RATE as f32).sin()
}

/// Peak of the output for a steady sine, in dB relative to the input, after half a second of
/// settling.
fn response_db(sections: &mut [Section], hz: f32) -> f32 {
    let settle = RATE as usize / 2;
    let mut peak: f32 = 0.0;
    for i in 0..settle + RATE as usize / 4 {
        let mut y = sine(hz, i, 0.5);
        for section in sections.iter_mut() {
            y = section.process(y);
        }
        if i >= settle {
            peak = peak.max(y.abs());
        }
    }
    20.0 * (peak / 0.5).log10()
}

/// What the voice preset promises, as numbers: rumble gone, presence up, air up, and the middle of
/// the voice left roughly where it was.
#[test]
fn the_voice_preset_removes_rumble_and_lifts_presence() {
    let rumble = response_db(&mut filters_only(FxPreset::Voice), 40.0);
    assert!(rumble < -10.0, "40 Hz nur um {rumble} dB gesenkt");

    let fundamental = response_db(&mut filters_only(FxPreset::Voice), 200.0);
    assert!(fundamental.abs() < 2.0, "200 Hz um {fundamental} dB verbogen");

    let presence = response_db(&mut filters_only(FxPreset::Voice), 3_000.0);
    assert!(
        presence > 1.5 && presence < 3.5,
        "3 kHz um {presence} dB angehoben, erwartet rund 2.5 dB"
    );

    let air = response_db(&mut filters_only(FxPreset::Voice), 14_000.0);
    assert!(air > 1.0, "Luft oben fehlt: {air} dB");
}

/// And the guitar preset: the quack between 2 and 4 kHz is down, the body boom is down, and the
/// high-pass sits higher than the voice's.
#[test]
fn the_guitar_preset_cuts_the_quack_and_the_boom() {
    let voice = FxPreset::Voice.settings();
    let guitar = FxPreset::PiezoGuitar.settings();
    assert!(
        float(guitar.high_pass_hz) > float(voice.high_pass_hz),
        "Der Piezo-Hochpass muss hoeher liegen als der fuer die Stimme"
    );

    let quack = response_db(&mut filters_only(FxPreset::PiezoGuitar), 3_000.0);
    assert!(quack < -3.0, "3 kHz nur um {quack} dB gesenkt");

    // The named range, 2 to 4 kHz, has to be inside the cut - not just its centre.
    for hz in [2_200.0, 4_000.0] {
        let db = response_db(&mut filters_only(FxPreset::PiezoGuitar), hz);
        assert!(db < -1.5, "{hz} Hz nur um {db} dB gesenkt");
    }

    let boom = response_db(&mut filters_only(FxPreset::PiezoGuitar), 180.0);
    assert!(boom < -2.0, "Koerperdroehnen bei 180 Hz: {boom} dB");

    // The sparkle above the cut comes back.
    let sparkle = response_db(&mut filters_only(FxPreset::PiezoGuitar), 10_000.0);
    assert!(sparkle > 0.5, "Glanz oben fehlt: {sparkle} dB");
}

/// A track that nobody has touched sounds exactly as if there were no effects.
#[test]
fn a_fresh_chain_is_bit_identical_with_its_input() {
    let mut chain = Chain::new(RATE);
    assert!(chain.bypassed());
    assert_eq!(chain.preset(), FxPreset::Dry);
    for i in 0..10_000 {
        let x = single(sine(440.0, i, 0.9) + sine(37.0, i, 0.1));
        assert_eq!(chain.gate(Frame::mono(x), true), Gate::Through, "Sample {i}");
    }
}

/// "Trocken" is the preset that switches everything off, so it has to be a pass-through too.
#[test]
fn the_dry_preset_switches_everything_off() {
    let mut chain = Chain::new(RATE);
    chain.load_preset(FxPreset::Voice);
    chain.load_preset(FxPreset::Dry);
    assert!(chain.bypassed());
    assert!(chain.settings().enabled.iter().all(|&on| !on));
    for i in 0..5_000 {
        let x = single(sine(880.0, i, 0.5));
        assert_eq!(chain.gate(Frame::mono(x), true), Gate::Through, "Sample {i}");
    }
}

#[test]
fn every_effect_can_be_switched_on_its_own() {
    let mut chain = Chain::new(RATE);
    chain.set_bypass(false);
    for slot in FxSlot::all() {
        assert!(!chain.enabled(slot), "{} startet aus", slot.label());
        chain.set_enabled(slot, true);
        assert!(chain.enabled(slot));
        for other in FxSlot::all() {
            if other != slot {
                assert!(!chain.enabled(other), "{} wurde mitgeschaltet", other.label());
            }
        }
        chain.set_enabled(slot, false);
    }
    assert_eq!(chain.preset(), FxPreset::Custom, "das war kein Preset mehr");
}

#[test]
fn a_preset_keeps_its_name_until_a_knob_is_turned() {
    let mut chain = Chain::new(RATE);
    chain.load_preset(FxPreset::Voice);
    assert_eq!(chain.preset(), FxPreset::Voice);
    chain.load_preset(FxPreset::PiezoGuitar);
    assert_eq!(chain.preset(), FxPreset::PiezoGuitar);
    chain.set_param(FxParam::ReverbMix(single(0.4)));
    assert_eq!(chain.preset(), FxPreset::Custom);
    assert_eq!(float(chain.settings().reverb_mix), 0.4);
    chain.load_preset(FxPreset::Voice);
    assert_eq!(chain.preset(), FxPreset::Voice);
    assert_eq!(float(chain.settings().reverb_mix), 0.18, "das Preset gewinnt wieder");
}

#[test]
fn preset_names_survive_the_round_trip_through_their_labels() {
    for preset in FxPreset::loadable() {
        assert_eq!(FxPreset::parse(preset.label()), Some(preset));
    }
    assert_eq!(FxPreset::parse("STIMME"), Some(FxPreset::Voice));
    assert_eq!(FxPreset::parse("bass"), None);
    assert_eq!(FxSlot::from_number(1), Some(FxSlot::HighPass));
    assert_eq!(FxSlot::from_number(5), Some(FxSlot::Reverb));
    assert_eq!(FxSlot::from_number(0), None);
    assert_eq!(FxSlot::from_number(6), None);
}

#[test]
fn every_parameter_lands_where_it_is_supposed_to_and_is_clamped() {
    let mut chain = Chain::new(RATE);
    chain.set_param(FxParam::HighPassHz(single(120.0)));
    assert_eq!(float(chain.settings().high_pass_hz), 120.0);
    chain.set_param(FxParam::HighPassHz(single(5.0)));
    assert_eq!(float(chain.settings().high_pass_hz), 20.0, "unten gedeckelt");

    chain.set_param(FxParam::BandHz { band: 1, hz: single(2_500.0) });
    chain.set_param(FxParam::BandQ { band: 1, q: single(2.0) });
    chain.set_param(FxParam::BandGainDb { band: 1, db: single(-6.0) });
    chain.set_param(FxParam::BandKind { band: 2, kind: BandKind::HighShelf });
    let s = chain.settings();
    assert_eq!(float(s.bands[1].hz), 2_500.0);
    assert_eq!(float(s.bands[1].q), 2.0);
    assert_eq!(float(s.bands[1].gain_db), -6.0);
    assert_eq!(s.bands[2].kind, BandKind::HighShelf);
    // A band index that does not exist is ignored rather than panicking in the audio callback.
    chain.set_param(FxParam::BandGainDb { band: 9, db: single(12.0) });
    assert_eq!(chain.settings().bands, s.bands);

    chain.set_param(FxParam::CompThresholdDb(single(-30.0)));
    chain.set_param(FxParam::CompRatio(single(6.0)));
    chain.set_param(FxParam::CompAttackMs(single(3.0)));
    chain.set_param(FxParam::CompReleaseMs(single(400.0)));
    chain.set_param(FxParam::CompKneeDb(single(4.0)));
    chain.set_param(FxParam::CompMakeupDb(single(2.0)));
    let c = chain.settings().comp;
    assert_eq!(
        [c.threshold_db, c.ratio, c.attack_ms, c.release_ms, c.knee_db, c.makeup_db].map(float),
        [-30.0, 6.0, 3.0, 400.0, 4.0, 2.0]
    );

    chain.set_param(FxParam::DelayNote(DelayNote::Quarter));
    chain.set_param(FxParam::DelayFeedback(single(2.0)));
    chain.set_param(FxParam::DelayMix(single(0.4)));
    assert_eq!(chain.settings().delay_note, DelayNote::Quarter);
    assert_eq!(float(chain.settings().delay_feedback), 0.95, "Feedback gedeckelt");
    assert_eq!(float(chain.settings().delay_mix), 0.4);

    chain.set_param(FxParam::ReverbSize(single(1.5)));
    chain.set_param(FxParam::ReverbDamping(single(0.25)));
    chain.set_param(FxParam::ReverbMix(single(0.3)));
    assert_eq!(float(chain.settings().reverb_size), 1.0, "Groesse gedeckelt");
    assert_eq!(float(chain.settings().reverb_damping), 0.25);
    assert_eq!(float(chain.settings().reverb_mix), 0.3);
}

#[test]
fn settings_are_clamped_to_something_usable() {
    let s = CompSettings {
        threshold_db: single(40.0),
        ratio: single(-3.0),
        attack_ms: single(0.0),
        release_ms: single(100_000.0),
        knee_db: single(-5.0),
        makeup_db: single(99.0),
    }
    .clamped();
    assert_eq!(float(s.threshold_db), 0.0);
    assert_eq!(float(s.ratio), 1.0);
    assert_eq!(float(s.attack_ms), 0.1);
    assert_eq!(float(s.release_ms), 2_000.0);
    assert_eq!(float(s.knee_db), 0.0);
    assert_eq!(float(s.makeup_db), 24.0);
}

/// The tempo-synchronous delay, seen from the chain: the number the status reports has to be the
/// one the timeline dictates, and it has to follow a tempo change.
#[test]
fn the_delay_follows_the_tempo_through_the_chain() {
    let mut chain = Chain::new(RATE);
    chain.set_bypass(false);
    chain.set_enabled(FxSlot::Delay, true);
    chain.set_param(FxParam::DelayNote(DelayNote::Quarter));
    chain.set_tempo(bpm(120.0));
    assert_eq!(chain.status(single(0.0)).delay_samples, 24_000);

    assert!(chain.set_tempo(bpm(90.0)), "das Tempo hat sich bewegt");
    assert!(!chain.set_tempo(bpm(90.0)));
    assert_eq!(chain.delay().target_tap_samples(), 32_000);
}

/// After the tail has run out a silent chain costs nothing, and the very next sample of music wakes
/// it up again.
#[test]
fn a_silent_chain_goes_idle_and_wakes_up_again() {
    let mut chain = Chain::new(RATE);
    chain.load_preset(FxPreset::Voice);
    chain.set_tempo(bpm(100.0));
    chain.set_tail(RATE);
    assert!(chain.tail_samples() > RATE / 2, "der Schwanz ist zu kurz angesetzt");

    for i in 1..RATE as usize {
        let x = single(sine(220.0, i, 0.5));
        assert_eq!(chain.gate(Frame::mono(x), true), Gate::Run);
    }
    let mut gate = Gate::Run;
    for _ in 0..chain.tail_samples() + 1_000 {
        gate = chain.gate(Frame::silent(), true);
    }
    assert_eq!(gate, Gate::Idle);
    // A single loud sample has to bring the chain back.
    assert_eq!(chain.gate(Frame::mono(single(0.5)), true), Gate::Run);
}

#[test]
fn the_status_letters_show_what_is_on() {
    let mut chain = Chain::new(RATE);
    chain.load_preset(FxPreset::Voice);
    let status = chain.status(single(0.0));
    assert_eq!(status.letters(), "HEK-R", "Delay ist im Stimme-Preset aus");
    assert!(status.active());
    assert_eq!(status.preset, FxPreset::Voice);

    chain.load_preset(FxPreset::Dry);
    let status = chain.status(single(0.0));
    assert_eq!(status.letters(), "-----");
    assert!(!status.active());
    assert_eq!(FxStatus::default().letters(), "-----");
}

#[test]
fn a_band_without_gain_is_flat_and_a_shelf_has_its_name() {
    let band = BandSettings::default();
    assert!(band.is_flat());
    let lifted = BandSettings { gain_db: single(3.0), ..band };
    assert!(!lifted.is_flat());
    let wild = BandSettings {
        kind: BandKind::LowShelf,
        hz: single(1.0e9),
        q: single(0.0),
        gain_db: single(-99.0),
    }
    .clamped();
    assert_eq!(float(wild.gain_db), -24.0);
    assert_eq!(float(wild.hz), 20_000.0);
    assert_eq!(float(wild.q), 0.1);
    assert_eq!(wild.kind.label(), "Tiefen-Kuhschwanz");
    assert_eq!(BandKind::Peak.label(), "Glocke");
    assert_eq!(BandKind::HighShelf.label(), "Hoehen-Kuhschwanz");
}

#[test]
fn applied_settings_are_clamped_and_called_custom() {
    let mut chain = Chain::new(RATE);
    let mut wanted = FxPreset::PiezoGuitar.settings();
    wanted.delay_feedback = single(7.0);
    wanted.reverb_mix = single(-1.0);
    chain.apply_settings(wanted);
    assert_eq!(float(chain.settings().delay_feedback), 0.95);
    assert_eq!(float(chain.settings().reverb_mix), 0.0);
    assert_eq!(chain.settings().bands, ChainSettings { ..wanted }.bands);
    assert_eq!(FxSlot::parse("reverb"), Some(FxSlot::Reverb));
    assert_eq!(FxSlot::parse("zerre"), None);
    assert_eq!(FxSlot::Comp.letter(), 'K');
    assert_eq!(FxSlot::Reverb.name(), "reverb");
}
