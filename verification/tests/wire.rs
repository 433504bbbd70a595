use looper_engine::command::{TrackState, TrackStatus};
use looper_engine::fx::{BandKind, Chain, DelayNote, FxParam, FxPreset, FxSlot, FxStatus};
use looper_engine::proto::{
    band_kind_param, fx_event, track_event, BandKindName, CalibrateConfig,
    DelayNoteName, FxParamName, FxPresetName, FxSlotName, PendingKindName, QuantizeName,
    StartConfig, StatusEvent, TrackConfig, TrackStateName,
};
use looper_engine::schedule::{Lead, PendingKind, Quantize};
use looper_engine::single::Single;
use looper_engine::timeline::Bpm;

const RATE: u32 = 48_000;

fn single(x: f32) -> Single {
    Single { bits: x.to_bits() }
}

fn float(x: Single) -> f32 {
    f32::from_bits(x.bits)
}

fn floats(list: &[Single]) -> Vec<f32> {
    list.iter().map(|x| float(*x)).collect()
}

fn bpm(value: f64) -> Bpm {
    Bpm { bits: value.to_bits() }
}

fn sample_status() -> TrackStatus {
    TrackStatus {
        state: TrackState::Playing,
        layers: 3,
        // Layer 2 (one-based) is muted.
        muted_mask: 0b010,
        loop_len: 96_000,
        origin: 0,
        filled: 0,
        input_peak: [single(0.5), single(0.0)],
        output_peak: [single(1.0), single(1.0)],
        monitor: true,
        playing: true,
        // Zero-based inside the engine; input 2 as printed on the interface.
        input_channels: [1, 0],
        channels: 1,
        pan: single(0.0),
        // A track nobody has touched: chain bypassed, everything off, "trocken".
        ..TrackStatus::default()
    }
}

/// A stereo track on inputs 3 and 4, placed a little to the left.
fn stereo_status() -> TrackStatus {
    TrackStatus {
        channels: 2,
        input_channels: [2, 3],
        input_peak: [single(0.5), single(0.25)],
        output_peak: [single(0.8), single(0.2)],
        pan: single(-0.25),
        ..sample_status()
    }
}

/// A chain with a preset in it, for the effect part of the wire format.
fn voice_status() -> FxStatus {
    let mut chain = Chain::new(RATE);
    chain.load_preset(FxPreset::Voice);
    chain.set_tempo(bpm(120.0));
    chain.status(single(0.0))
}

/// The one conversion the whole frontend depends on: engine snapshot in, display numbers out.
#[test]
fn a_track_snapshot_becomes_the_wire_format_with_the_right_numbering() {
    let event = track_event(
        0,
        "gitarre",
        &sample_status(),
        &vec![single(1.0), single(1.0), single(0.25)],
        Lead::default(),
    );
    assert_eq!(event.index, 0);
    assert_eq!(event.name, "gitarre");
    assert_eq!(event.input_channel, 2, "Kanal wird eins-basiert gemeldet");
    assert_eq!(event.input_channels, vec![2], "mono: genau ein Eingang");
    assert_eq!(event.channels, 1);
    assert_eq!(event.channels_label, "mono");
    assert_eq!(float(event.pan), 0.0);
    assert_eq!(floats(&event.input_peaks), vec![0.5], "mono: ein Pegel");
    assert_eq!(floats(&event.output_peaks), vec![1.0, 1.0], "der Bus ist immer stereo");
    assert_eq!(event.state, TrackStateName::Playing);
    assert_eq!(event.state_label, "Wiedergabe");
    assert_eq!(event.loop_samples, 96_000);
    assert_eq!(event.layers.len(), 3);
    assert_eq!(event.layers[0].number, 1);
    assert_eq!(event.layers[0].index, 0);
    assert!(!event.layers[0].muted);
    assert!(event.layers[1].muted, "Bit 1 der Maske ist Ebene 2");
    assert_eq!(float(event.layers[2].gain), 0.25);
    assert_eq!(event.pending_kind, None, "ohne Vorlauf ist nichts geplant");
    assert_eq!(event.pending_label, None);
    assert_eq!(event.pending_bars, 0);
    assert_eq!(event.pending_beats, 0);
}

/// A stereo track reports both of its inputs, both of its input meters and a channel count the
/// frontend can switch on - and the single-number levels stay the louder of the two, so a frontend
/// that draws one bar per meter needs no case distinction.
#[test]
fn a_stereo_track_reports_both_inputs_and_both_meters() {
    let event = track_event(0, "klavier", &stereo_status(), &vec![], Lead::default());
    assert_eq!(event.channels, 2);
    assert_eq!(event.channels_label, "stereo");
    assert_eq!(event.input_channel, 3, "der linke Eingang, eins-basiert");
    assert_eq!(event.input_channels, vec![3, 4]);
    assert_eq!(floats(&event.input_peaks), vec![0.5, 0.25]);
    assert_eq!(float(event.input_peak), 0.5, "die Einzahl ist der lautere Kanal");
    assert_eq!(floats(&event.output_peaks), vec![0.8, 0.2]);
    assert_eq!(float(event.output_peak), 0.8);
    assert_eq!(float(event.pan), -0.25);
}

/// A stereo track is set up by naming a second input; a pan travels with it.
#[test]
fn a_start_configuration_can_name_a_stereo_pair_and_a_pan() {
    let config = StartConfig::of_tracks(vec![
        TrackConfig { pan: single(-0.3), ..TrackConfig::mono("stimme", 1) },
        TrackConfig { input_channel_right: Some(4), ..TrackConfig::mono("klavier", 3) },
    ]);
    assert_eq!(config.tracks[0].channels(), 1);
    assert_eq!(float(config.tracks[0].pan), -0.3);
    assert_eq!(config.tracks[1].channels(), 2);
    assert_eq!(config.tracks[1].input_channel_right, Some(4));
    assert_eq!(float(config.tracks[1].pan), 0.0);
}

/// The count-in is what the stage screen prints in big letters, so both halves of it - the German
/// word and the two numbers - have to survive the conversion.
#[test]
fn a_scheduled_action_reaches_the_frontend_as_a_countdown() {
    let lead = Lead { kind: Some(PendingKind::Record), bars: 5, beats: 2 };
    let event = track_event(0, "gitarre", &sample_status(), &vec![], lead);
    assert_eq!(event.pending_kind, Some(PendingKindName::Record));
    assert_eq!(event.pending_label.as_deref(), Some("Aufnahme"));
    assert_eq!(event.pending_bars, 5);
    assert_eq!(event.pending_beats, 2);

    // Every kind the scheduler can announce has a name and a German word.
    for (kind, wire, label) in [
        (PendingKind::Record, PendingKindName::Record, "Aufnahme"),
        (PendingKind::Overdub, PendingKindName::Overdub, "Overdub"),
        (PendingKind::Play, PendingKindName::Play, "Wiedergabe"),
        (PendingKind::Stop, PendingKindName::Stop, "Stopp"),
    ] {
        let name: PendingKindName = kind.into();
        assert_eq!(name, wire);
        assert_eq!(kind.label(), label);
    }
}

/// The grid is part of the wire format in both directions.
#[test]
fn the_quantisation_mode_travels_as_bar_or_loop() {
    assert_eq!(QuantizeName::default(), QuantizeName::Loop);
    // Round trip through the engine's own enum, in both directions.
    for name in [QuantizeName::Bar, QuantizeName::Loop] {
        let engine: Quantize = name.into();
        assert_eq!(QuantizeName::from(engine), name);
    }
    assert_eq!(Quantize::from(QuantizeName::Loop), Quantize::Loop);
}

/// A gain mirror shorter than the engine's layer count must not lose layers - the missing ones are
/// simply unity, which is what a layer starts at.
#[test]
fn missing_mirrored_gains_default_to_one() {
    let event = track_event(1, "stimme", &sample_status(), &vec![], Lead::default());
    assert_eq!(event.layers.len(), 3);
    assert!(event.layers.iter().all(|l| float(l.gain) == 1.0));
}

/// Every state the engine can report has a name on the wire and keeps its German label - the
/// frontend switches on the one and prints the other.
#[test]
fn track_states_serialise_as_snake_case() {
    let pairs = [
        (TrackState::Empty, TrackStateName::Empty, "leer"),
        (TrackState::Armed, TrackStateName::Armed, "scharf"),
        (TrackState::Recording, TrackStateName::Recording, "Aufnahme"),
        (TrackState::Overdub, TrackStateName::Overdub, "Overdub"),
        (TrackState::Ready, TrackStateName::Ready, "bereit"),
        (TrackState::Playing, TrackStateName::Playing, "Wiedergabe"),
    ];
    for (state, wire, label) in pairs {
        let name: TrackStateName = state.into();
        assert_eq!(name, wire);
        assert_eq!(state.label(), label);
    }
}

/// Every effect enum has to survive the round trip through its wire name, in both directions - the
/// frontend switches on these and sends them straight back.
#[test]
fn every_effect_enum_travels_as_snake_case_in_both_directions() {
    for (slot, wire, label) in [
        (FxSlot::HighPass, FxSlotName::HighPass, "Hochpass"),
        (FxSlot::Eq, FxSlotName::Eq, "EQ"),
        (FxSlot::Comp, FxSlotName::Comp, "Kompressor"),
        (FxSlot::Delay, FxSlotName::Delay, "Delay"),
        (FxSlot::Reverb, FxSlotName::Reverb, "Hall"),
    ] {
        let name: FxSlotName = slot.into();
        assert_eq!(name, wire);
        assert_eq!(FxSlot::from(name), slot);
        assert_eq!(slot.label(), label);
    }

    for (preset, wire, label) in [
        (FxPreset::Dry, FxPresetName::Dry, "trocken"),
        (FxPreset::Voice, FxPresetName::Voice, "stimme"),
        (FxPreset::PiezoGuitar, FxPresetName::PiezoGuitar, "gitarre"),
        (FxPreset::Custom, FxPresetName::Custom, "eigen"),
    ] {
        let name: FxPresetName = preset.into();
        assert_eq!(name, wire);
        assert_eq!(FxPreset::from(name), preset);
        assert_eq!(preset.label(), label);
    }

    for (note, wire, label) in [
        (DelayNote::Quarter, DelayNoteName::Quarter, "1/4"),
        (DelayNote::DottedEighth, DelayNoteName::DottedEighth, "1/8."),
        (DelayNote::Eighth, DelayNoteName::Eighth, "1/8"),
        (DelayNote::TripletEighth, DelayNoteName::TripletEighth, "1/8T"),
    ] {
        let name: DelayNoteName = note.into();
        assert_eq!(name, wire);
        assert_eq!(DelayNote::from(name), note);
        assert_eq!(note.label(), label);
    }

    for (kind, wire) in [
        (BandKind::Peak, BandKindName::Peak),
        (BandKind::LowShelf, BandKindName::LowShelf),
        (BandKind::HighShelf, BandKindName::HighShelf),
    ] {
        let name: BandKindName = kind.into();
        assert_eq!(name, wire);
        assert_eq!(BandKind::from(name), kind);
    }
}

/// The chain state as the window sees it: which preset, what is on, and the tempo-synchronous delay
/// time already converted into samples.
#[test]
fn a_chain_becomes_the_wire_format_with_its_preset_and_its_delay_time() {
    let event = fx_event(&voice_status());
    assert!(!event.bypass, "das Stimme-Preset schaltet die Kette ein");
    assert_eq!(event.preset, FxPresetName::Voice);
    assert_eq!(event.preset_label, "stimme");
    assert_eq!(event.letters, "HEK-R", "Delay ist in diesem Preset aus");
    assert_eq!(event.effects.len(), 5);
    assert_eq!(event.effects[0].name, FxSlotName::HighPass);
    assert_eq!(event.effects[0].label, "Hochpass");
    assert!(event.effects[0].on);
    assert!(!event.effects[3].on, "Delay aus");

    assert_eq!(float(event.high_pass_hz), 80.0);
    assert_eq!(event.bands.len(), 3);
    assert_eq!(event.bands[0].index, 0);
    assert_eq!(event.bands[0].number, 1);
    assert_eq!(float(event.bands[1].hz), 3_000.0, "das Praesenzband");
    assert_eq!(
        event.bands[2].kind,
        BandKindName::HighShelf,
        "das oberste Band ist ein Kuhschwanz, kein Glockenfilter"
    );
    assert_eq!(float(event.comp_ratio), 3.0);
    assert_eq!(float(event.comp_makeup_db), 6.0);

    // Dotted eighth at 120 BPM and 48 kHz: 24000 * 0.75.
    assert_eq!(event.delay_note, DelayNoteName::DottedEighth);
    assert_eq!(event.delay_note_label, "1/8.");
    assert_eq!(event.delay_samples, 18_000);

    // A fresh track reports the dry, bypassed state.
    let idle = fx_event(&FxStatus::default());
    assert!(idle.bypass);
    assert_eq!(idle.preset, FxPresetName::Dry);
    assert_eq!(idle.letters, "-----");
}

/// The generic knob command: a name plus a value, and the three band-scoped names additionally need
/// a band. Both mistakes a frontend can make get a German sentence, not a panic.
#[test]
fn a_named_parameter_becomes_an_engine_parameter_or_a_german_complaint() {
    assert_eq!(
        FxParamName::CompRatio.to_param(single(3.5), None).unwrap(),
        FxParam::CompRatio(single(3.5))
    );
    assert_eq!(
        FxParamName::HighPassHz.to_param(single(90.0), None).unwrap(),
        FxParam::HighPassHz(single(90.0))
    );
    assert_eq!(
        FxParamName::BandGainDb.to_param(single(-4.0), Some(1)).unwrap(),
        FxParam::BandGainDb { band: 1, db: single(-4.0) }
    );
    assert_eq!(
        FxParamName::BandQ.to_param(single(2.0), Some(2)).unwrap(),
        FxParam::BandQ { band: 2, q: single(2.0) }
    );

    let err = FxParamName::BandHz.to_param(single(1_000.0), None).expect_err("ohne Band");
    assert!(err.contains("band"), "{err}");
    let err = FxParamName::BandHz
        .to_param(single(1_000.0), Some(7))
        .expect_err("Band 7 gibt es nicht");
    assert!(err.contains("0 bis 2"), "{err}");
    // A knob that is not band-scoped ignores a band rather than refusing it.
    assert!(FxParamName::ReverbMix.to_param(single(0.2), Some(9)).is_ok());
    assert!(FxParamName::BandQ.needs_band() && !FxParamName::DelayMix.needs_band());

    assert_eq!(
        band_kind_param(2, BandKindName::LowShelf).unwrap(),
        FxParam::BandKind { band: 2, kind: BandKind::LowShelf }
    );
    assert!(band_kind_param(3, BandKindName::Peak).is_err());
}

/// A frontend should be able to name only the tracks and get the measured values for everything
/// else.
#[test]
fn a_start_configuration_needs_nothing_but_its_tracks() {
    let config = StartConfig::of_tracks(vec![TrackConfig::mono("stimme", 1)]);
    assert_eq!(config.host, "asio");
    assert_eq!(config.device, None);
    assert_eq!(config.sample_rate, 48_000);
    assert_eq!(config.buffer_frames, 128);
    assert_eq!(config.bpm, bpm(100.0));
    assert_eq!(config.beats_per_bar, 4);
    assert_eq!(config.beat_unit, 4);
    assert_eq!(config.bars, 8);
    assert_eq!(
        config.quantize,
        QuantizeName::Loop,
        "ohne Angabe rastet eine Aufnahme auf den Loop-Anfang ein"
    );
    assert_eq!(config.latency_samples, 827);
    assert_eq!(float(config.monitor_gain), 1.0);
    assert_eq!(float(config.click_gain), 1.0);
    assert!(config.click, "der Klick ist standardmaessig an");
    assert!(!config.monitor, "Mithoeren ist standardmaessig aus");
    assert!(!config.force_buffer);
    assert_eq!(config.tracks.len(), 1);
    assert_eq!(config.tracks[0].name, "stimme");
    assert_eq!(config.tracks[0].input_channel, 1);
    assert_eq!(config.tracks[0].input_channel_right, None);
    assert_eq!(float(config.tracks[0].pan), 0.0, "ein Mono-Track in der Mitte");
}

#[test]
fn a_calibration_configuration_defaults_to_the_measurement_from_phase_zero() {
    let config = CalibrateConfig::default();
    assert_eq!(config.host, "asio");
    assert_eq!(config.sample_rate, 48_000);
    assert_eq!(config.buffer_frames, 128);
    assert_eq!(config.bpm, bpm(100.0));
    assert_eq!(config.bars, 4);
    assert_eq!(config.runs, 5);
    assert_eq!(config.latency_samples, 827);
    assert_eq!(float(config.click_gain), 1.0);
}

#[test]
fn an_idle_status_is_not_running_and_has_no_tracks() {
    let idle = StatusEvent::idle();
    assert!(!idle.running);
    assert!(idle.tracks.is_empty());
    assert_eq!(idle.message, None);
}
