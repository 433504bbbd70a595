use looper_engine::bridge::{binding_view, MidiBridge, OpenedPort, Profile, PENDING_MAX};
use looper_engine::desk::{Met, Resolution, Served};
use looper_engine::mapping::{Binding, MidiMap};
use looper_engine::midi::{MidiAction, MidiEvent, MidiId, MidiOutcome};

fn press(note: u8) -> MidiEvent {
    MidiEvent::NoteOn { channel: 1, note, velocity: 100 }
}

fn knob(number: u8, value: u8) -> MidiEvent {
    MidiEvent::ControlChange { channel: 1, controller: number, value }
}

fn binding(address: &str) -> Binding {
    Binding {
        address: address.to_string(),
        label: format!("Name von {address}"),
        describe: format!("Beschreibung von {address}"),
    }
}

fn asked(address: &str) -> Result<(Binding, String), String> {
    Ok((binding(address), format!("Warte auf ein Bedienelement fuer {address}.")))
}

fn opened(port: &str, map: MidiMap) -> Result<OpenedPort, String> {
    Ok(OpenedPort {
        port: port.to_string(),
        path: "profile/nano.yaml".to_string(),
        profile: Profile { device: "nanoPAD2".to_string(), map },
    })
}

/// A knob's stream is coalesced and waits for its window; a pad goes out at once. Without the first
/// the web view would get a hundred messages a second, without the second the learn mode would feel
/// broken.
#[test]
fn a_knob_sweep_coalesces_and_a_pad_is_emitted_at_once() {
    let mut bridge = MidiBridge::new();
    // Drain whatever the constructor's `view_changed` would emit.
    bridge.take_feed(false);

    for value in 0..40u8 {
        bridge.report(&knob(3, value), MidiOutcome::Unbound, None, None);
    }
    let pending = bridge.pending.len();
    assert_eq!(pending, 1, "vierzig Schritte eines Reglers sind ein Eintrag");
    assert!(
        bridge.take_feed(false).is_none(),
        "ein Regler wartet auf sein Fenster"
    );

    bridge.report(&press(36), MidiOutcome::Unbound, None, None);
    let feed = bridge.take_feed(false).expect("ein Pad geht sofort raus");
    assert_eq!(feed.events.len(), 2);
    assert_eq!(feed.events[0].value, 39, "der neueste Wert des Reglers");
    assert_eq!(feed.events[1].what, "Note an");
}

/// The badge on a bound control is what the musician reads off the screen - and it has to be the
/// same wording for a pad and for a knob.
#[test]
fn every_kind_of_control_has_a_short_name_for_the_badge() {
    assert_eq!(MidiId::note(1, 36).short(), "Pad 36");
    assert_eq!(MidiId::cc(1, 3).short(), "CC 3");
    assert_eq!(MidiId::bend(1).short(), "Bend");
    // The full id stays the file's key; the badge is only for the screen.
    assert_eq!(MidiId::note(10, 36).name(), "ch10.note36");
}

#[test]
fn a_sweep_goes_out_when_its_window_is_over() {
    let mut bridge = MidiBridge::new();
    bridge.take_feed(false);
    bridge.report(&knob(3, 1), MidiOutcome::Action, Some(&binding("track.1.pan")), None);
    bridge.report(&knob(4, 2), MidiOutcome::Action, None, None);
    bridge.report(&knob(3, 9), MidiOutcome::Action, None, None);
    let feed = bridge.take_feed(true).expect("das Fenster ist vorbei");
    assert_eq!(feed.events.len(), 2);
    assert_eq!((feed.events[0].value, feed.events[1].value), (9, 2));
    assert!(feed.view.is_none(), "die Belegung hat sich nicht geaendert");
    assert!(bridge.take_feed(true).is_none());
}

#[test]
fn a_flood_of_pads_keeps_the_newest() {
    let mut bridge = MidiBridge::new();
    bridge.take_feed(false);
    for n in 0..100u8 {
        bridge.report(&press(n), MidiOutcome::Unbound, None, None);
    }
    let feed = bridge.take_feed(false).unwrap();
    assert_eq!(feed.events.len(), PENDING_MAX);
    assert_eq!(feed.events.last().unwrap().id, "ch1.note99");
}

#[test]
fn every_event_says_what_it_is() {
    let off = MidiEvent::NoteOff { channel: 2, note: 7, velocity: 64 };
    let bend = MidiEvent::PitchBend { channel: 3, value: -8192 };
    assert_eq!((press(36).what(), off.what()), ("Note an", "Note aus"));
    assert_eq!((knob(1, 2).what(), bend.what()), ("Regler", "Pitchbend"));
    assert_eq!((press(36).value(), off.value(), knob(1, 2).value()), (100, 64, 2));
    assert_eq!(bend.value(), -8192);
    assert!(knob(1, 2).is_continuous() && bend.is_continuous());
    assert!(!press(1).is_continuous() && !off.is_continuous());
    assert_eq!(off.id(), MidiId::note(2, 7));
    assert_eq!(knob(5, 0).id().name(), "ch1.cc5");
    assert_eq!(bend.id(), MidiId::bend(3));
}

/// **The heart of the whole learn mode**: the address of the clicked element goes in, the next
/// control that arrives comes out bound to it - and lands in the profile, not just in memory.
#[test]
fn learn_binds_the_next_control_to_the_address_of_the_clicked_element() {
    let mut bridge = MidiBridge::new();
    bridge.arm(asked("track.1.record")).expect("gueltige Adresse");
    assert!(bridge.is_learning());

    // The note off of the same pad must not learn a second time.
    let report = bridge
        .feed_learn(&press(36), "Pad 36 ist jetzt Aufnahme.".to_string(), "x.yaml")
        .expect("die Taste wird gelernt");
    assert_eq!(report.outcome, MidiOutcome::Learned);
    assert_eq!(report.short, "Pad 36");
    assert_eq!(report.target.as_deref(), Some("track.1.record"));
    assert!(!bridge.is_learning(), "der Modus entwaffnet sich selbst");
    assert!(bridge
        .feed_learn(
            &MidiEvent::NoteOff { channel: 1, note: 36, velocity: 0 },
            String::new(),
            "x.yaml"
        )
        .is_none());

    // The monitor sees it too: "was that the pad I pressed?" is asked hardest while learning.
    let feed = bridge.take_feed(false).expect("das Gelernte geht sofort raus");
    assert_eq!(feed.events.len(), 1);
    assert_eq!(feed.events[0].outcome, MidiOutcome::Learned);
    assert!(
        feed.view.is_some(),
        "die neue Belegung faehrt mit, damit die Oberflaeche nicht nachfragen muss"
    );

    let view = bridge.view();
    assert!(view.dirty, "gelernt und noch nicht gespeichert");
    assert_eq!(view.bindings.len(), 1);
    assert_eq!(view.bindings[0].address, "track.1.record");
    assert_eq!(view.bindings[0].short, "Pad 36");
    assert!(!view.bindings[0].from_score);
    assert_eq!(view.device.as_deref(), Some("Controller"));
    assert_eq!(view.path.as_deref(), Some("x.yaml"));
}

/// The note off of a pad waits for nothing: the mode stays armed until a press comes.
#[test]
fn a_note_off_leaves_the_learn_mode_armed() {
    let mut bridge = MidiBridge::new();
    bridge.arm(asked("track.1.record")).expect("Adresse");
    let off = MidiEvent::NoteOff { channel: 1, note: 36, velocity: 0 };
    assert!(bridge.feed_learn(&off, String::new(), "x.yaml").is_none());
    assert!(bridge.is_learning());
    let view = bridge.cancel_learn("Lernen abgebrochen.".to_string());
    assert!(view.learning.is_none());
    assert_eq!(view.message.as_deref(), Some("Lernen abgebrochen."));
    assert!(bridge.feed_learn(&press(36), String::new(), "x.yaml").is_none());
    // Nothing waits any more, so nothing is said either.
    assert_eq!(
        bridge.cancel_learn("noch einmal".to_string()).message.as_deref(),
        Some("Lernen abgebrochen.")
    );
}

#[test]
fn an_address_that_stands_for_nothing_arms_nothing() {
    let mut bridge = MidiBridge::new();
    let err = bridge.arm(Err("Unbekannte Adresse.".to_string())).expect_err("Tippfehler");
    assert_eq!(err, "Unbekannte Adresse.");
    assert!(!bridge.is_learning());
}

#[test]
fn arming_without_a_port_says_so() {
    let mut bridge = MidiBridge::new();
    let view = bridge.arm(asked("track.1.record")).expect("Adresse");
    assert!(view.message.unwrap().ends_with("dann kommt hier etwas an."));
    assert_eq!(view.learning.as_deref(), Some("track.1.record"));
    assert_eq!(view.learning_label.as_deref(), Some("Name von track.1.record"));
    bridge.open(opened("nanoPAD2 PAD", MidiMap::new())).expect("offen");
    let view = bridge.arm(asked("track.1.play")).expect("Adresse");
    assert_eq!(
        view.message.as_deref(),
        Some("Warte auf ein Bedienelement fuer track.1.play.")
    );
}

/// Unbinding takes the entry out of the profile, and a control that is not bound says so rather than
/// pretending to have done something.
#[test]
fn unbinding_removes_the_entry_from_the_profile() {
    let mut bridge = MidiBridge::new();
    assert_eq!(
        bridge.unbind("ch1.note36").expect_err("kein Profil"),
        "Es ist kein Profil geladen - erst einen MIDI-Eingang verbinden."
    );
    bridge.arm(asked("track.1.record")).expect("Adresse");
    bridge.feed_learn(&press(36), "gelernt".to_string(), "p.yaml").expect("gelernt");
    bridge.arm(asked("track.2.record")).expect("Adresse");
    bridge.feed_learn(&press(37), "gelernt".to_string(), "p.yaml").expect("gelernt");
    let saved = bridge.save("q.yaml", Ok(())).expect("speichern");
    assert_eq!(saved.path, "p.yaml");
    assert_eq!(
        saved.message,
        "Profil \"Controller\" mit 2 Bindungen gespeichert: p.yaml"
    );
    assert!(!bridge.view().dirty);

    bridge.unbind("ch1.note36").expect("loesen");
    assert!(bridge.view().dirty, "geloest und noch nicht gespeichert");
    assert_eq!(bridge.view().bindings.len(), 1);
    assert_eq!(
        bridge.view().message.as_deref(),
        Some("ch1.note36 ist wieder frei (war \"Name von track.1.record\").")
    );
    assert_eq!(bridge.profile.as_ref().unwrap().map.entries.len(), 1);

    let err = bridge.unbind("ch1.note99").expect_err("nicht belegt");
    assert!(err.contains("nicht belegt"), "{err}");
    let err = bridge.unbind("note99").expect_err("kein Bedienelement");
    assert!(err.contains("kein MIDI-Bedienelement"), "{err}");
}

#[test]
fn a_profile_that_could_not_be_written_stays_unsaved() {
    let mut bridge = MidiBridge::new();
    assert_eq!(
        bridge.save("p.yaml", Ok(())).expect_err("nichts da"),
        "Es ist kein Profil zum Speichern da - erst einen MIDI-Eingang verbinden."
    );
    bridge.arm(asked("track.1.record")).expect("Adresse");
    bridge.feed_learn(&press(36), "gelernt".to_string(), "p.yaml").expect("gelernt");
    let err = bridge.save("p.yaml", Err("Platte voll".to_string())).expect_err("voll");
    assert_eq!(err, "Platte voll");
    assert!(bridge.view().dirty);
}

/// A score's bindings supplement the profile when the score is loaded - and every pad the score takes
/// over is reported as a German sentence, because a pad that silently means something else in one
/// piece is how a live set goes wrong.
#[test]
fn a_scores_bindings_supplement_the_profile_and_a_takeover_is_reported() {
    let mut score = MidiMap::new();
    score.insert(MidiId::note(1, 36), binding("track.stimme.record"));
    score.insert(MidiId::note(1, 45), binding("transport.next"));

    let mut bridge = MidiBridge::new();
    bridge.arm(asked("track.1.record")).expect("Adresse");
    bridge.feed_learn(&press(36), "gelernt".to_string(), "p.yaml").expect("gelernt");

    let notes = bridge.set_score(Ok(score)).expect("Bindungen der Partitur");
    let view = bridge.view();
    // Two ids: the pad the score took over, and the one it added.
    assert_eq!(view.bindings.len(), 2, "{:?}", view.bindings);
    let taken = view.bindings.iter().find(|b| b.id == "ch1.note36").expect("Pad 36");
    assert_eq!(taken.address, "track.stimme.record");
    assert!(taken.from_score);
    let added = view.bindings.iter().find(|b| b.id == "ch1.note45").expect("Pad 45");
    assert_eq!(added.address, "transport.next");

    assert_eq!(notes.len(), 1, "{notes:?}");
    assert!(notes[0].contains("Partitur belegt"), "{}", notes[0]);
    assert_eq!(view.notes, notes);
    assert_eq!(
        bridge.target_of(&press(36)).expect("belegt").address,
        "track.stimme.record"
    );

    // A score binding is not the profile's to remove.
    let err = bridge.unbind("ch1.note45").expect_err("gehoert der Partitur");
    assert!(err.contains("Partitur"), "{err}");

    // A score whose bindings are wrong changes nothing.
    let issues = bridge.set_score(Err(vec!["Zeile 3".to_string()])).expect_err("kaputt");
    assert_eq!(issues, vec!["Zeile 3".to_string()]);
    assert_eq!(bridge.view().bindings.len(), 2);

    // Unloading the score gives the pad back to the profile.
    bridge.set_score(Ok(MidiMap::new())).expect("keine Partitur");
    let view = bridge.view();
    assert_eq!(view.bindings.len(), 1);
    assert_eq!(view.bindings[0].address, "track.1.record");
}

#[test]
fn opening_closing_and_losing_a_port_are_told() {
    let mut bridge = MidiBridge::new();
    assert_eq!(
        bridge.close().message.as_deref(),
        Some("Es war kein MIDI-Eingang offen.")
    );
    let view = bridge.open(opened("nanoPAD2 PAD", MidiMap::new())).expect("offen");
    assert!(view.message.unwrap().contains("Noch keine Bindungen"));
    assert!(bridge.is_open());
    bridge.count_dropped(4);
    assert_eq!(bridge.view().dropped, 4);

    bridge.arm(asked("track.1.record")).expect("Adresse");
    bridge.feed_learn(&press(36), "gelernt".to_string(), "p.yaml").expect("gelernt");
    let mut map = MidiMap::new();
    map.insert(MidiId::cc(1, 3), binding("track.1.pan"));
    let view = bridge.open(opened("nanoKONTROL", map)).expect("offen");
    assert_eq!(
        view.message.as_deref(),
        Some(
            "MIDI-Eingang \"nanoKONTROL\" offen, Profil \"nanoPAD2\" mit 1 Bindungen. Achtung: die ungespeicherten Bindungen des vorigen Profils sind damit weg."
        )
    );
    assert!(!view.dirty);
    assert_eq!(view.dropped, 0);

    // A list that could not be read is no evidence that the device is gone.
    assert!(bridge.check_alive(None).is_none());
    let here = vec!["anderes".to_string(), "nanoKONTROL".to_string()];
    assert!(bridge.check_alive(Some(&here)).is_none());
    let gone = vec!["anderes".to_string()];
    let told = bridge.check_alive(Some(&gone)).expect("weg");
    assert!(told.contains("\"nanoKONTROL\" ist verschwunden"), "{told}");
    assert!(!bridge.is_open());
    assert_eq!(bridge.view().bindings.len(), 1, "die Bindungen bleiben");
    assert!(bridge.check_alive(Some(&gone)).is_none());

    bridge.open(opened("nanoKONTROL", MidiMap::new())).expect("offen");
    let err = bridge.open(Err("Kein solcher Eingang.".to_string())).expect_err("fehlt");
    assert_eq!(err, "Kein solcher Eingang.");
    assert!(!bridge.is_open(), "der alte Eingang ist schon zurueckgegeben");
    bridge.say("Hallo".to_string());
    assert_eq!(bridge.message.as_deref(), Some("Hallo"));
    assert!(bridge.view_changed);
}

#[test]
fn a_settled_event_reports_what_became_of_it() {
    let mut map = MidiMap::new();
    map.insert(MidiId::note(1, 4), binding("clear"));
    let mut bridge = MidiBridge::new();
    bridge.open(opened("nanoPAD2 PAD", map)).expect("offen");
    bridge.take_feed(false);
    assert!(!bridge.settle(&press(1), Resolution::Unbound, None));
    bridge.settle(&press(2), Resolution::Absorbed("wartet".to_string()), None);
    bridge.settle(&press(3), Resolution::Refused("geht nicht".to_string()), None);
    bridge.settle(&press(4), Resolution::Action(MidiAction::ClearAll), Some(Ok(None)));
    bridge.settle(
        &press(5),
        Resolution::Action(MidiAction::ClearAll),
        Some(Err("keine Engine".to_string())),
    );
    bridge.settle(&press(4), Resolution::Action(MidiAction::ClearAll), None);
    let feed = bridge.take_feed(false).unwrap();
    let outcomes: Vec<MidiOutcome> = feed.events.iter().map(|e| e.outcome).collect();
    assert_eq!(
        outcomes,
        vec![
            MidiOutcome::Unbound,
            MidiOutcome::Absorbed,
            MidiOutcome::Refused,
            MidiOutcome::Action,
            MidiOutcome::Refused,
            MidiOutcome::Refused,
        ]
    );
    assert_eq!(feed.events[1].note.as_deref(), Some("wartet"));
    assert_eq!(feed.events[4].note.as_deref(), Some("keine Engine"));
    assert_eq!(feed.events[3].target_label.as_deref(), Some("Name von clear"));
    assert_eq!(
        feed.events[5].note.as_deref(),
        Some("Die Engine laeuft nicht. Erst starten.")
    );
    assert_eq!(feed.events[5].target.as_deref(), Some("clear"));
}

#[test]
fn a_binding_is_shown_with_its_control() {
    let shown = binding_view(MidiId::cc(2, 7), &binding("track.1.pan"), true);
    assert_eq!(shown.id, "ch2.cc7");
    assert_eq!(shown.short, "CC 7");
    assert_eq!((shown.channel, shown.number), (2, 7));
    assert_eq!(shown.kind, "cc");
    assert_eq!(shown.address, "track.1.pan");
    assert_eq!(shown.label, "Name von track.1.pan");
    assert!(shown.from_score);
}

#[test]
fn a_key_of_a_profile_reads_back() {
    for id in [MidiId::note(1, 36), MidiId::cc(16, 127), MidiId::bend(9), MidiId::note(10, 0)] {
        assert_eq!(MidiId::parse(&id.name()), Ok(id));
    }
    for text in ["", "ch1", "ch0.note1", "ch17.note1", "ch1.note128", "ch1.pad3", "1.note3"] {
        assert!(MidiId::parse(text).is_err(), "{text}");
    }
}

#[test]
fn the_overview_is_in_order_whatever_was_learned_first() {
    let mut map = MidiMap::new();
    map.insert(MidiId::bend(1), binding("tempo"));
    map.insert(MidiId::cc(1, 3), binding("a"));
    map.insert(MidiId::note(2, 1), binding("b"));
    map.insert(MidiId::note(1, 40), binding("c"));
    map.insert(MidiId::note(1, 36), binding("d"));
    map.insert(MidiId::cc(1, 3), binding("e"));
    let ids: Vec<String> = map.entries.iter().map(|e| e.id.name()).collect();
    assert_eq!(ids, vec!["ch1.note36", "ch1.note40", "ch1.cc3", "ch1.bend", "ch2.note1"]);
    assert_eq!(map.len(), 5);
    assert_eq!(map.get(MidiId::cc(1, 3)).unwrap().address, "e");
    assert!(map.get(MidiId::cc(1, 4)).is_none());
    assert_eq!(map.remove(MidiId::note(1, 40)).unwrap().address, "c");
    assert!(map.remove(MidiId::note(1, 40)).is_none());
    assert_eq!(map.copied().len(), 4);
}

/// A binding that says the same thing as before is no takeover.
#[test]
fn an_overlay_tells_only_what_changes() {
    let mut base = MidiMap::new();
    base.insert(MidiId::note(1, 1), binding("a"));
    base.insert(MidiId::note(1, 2), binding("b"));
    let mut above = MidiMap::new();
    above.insert(MidiId::note(1, 1), binding("a"));
    above.insert(MidiId::note(1, 2), binding("c"));
    above.insert(MidiId::note(1, 3), binding("d"));
    let notes = base.overlay(&above);
    assert_eq!(
        notes,
        vec!["Die Partitur belegt Pad 2 mit \"Name von c\" statt \"Name von b\".".to_string()]
    );
    assert_eq!(base.len(), 3);
}

/// While the learn mode waits for a control, that control must not also do its old job on the way
/// in.
#[test]
fn a_learning_bridge_gets_the_event() {
    let mut bridge = MidiBridge::new();
    assert!(matches!(bridge.meet(&press(36), String::new(), "x.yaml"), Met::Mapping));
    bridge.arm(asked("record/1")).expect("scharf");
    let off = MidiEvent::NoteOff { channel: 1, note: 36, velocity: 0 };
    assert!(matches!(bridge.meet(&off, String::new(), "x.yaml"), Met::Learning(None)));
    assert!(bridge.is_learning(), "das Loslassen lehrt nichts");
    match bridge.meet(&press(36), "gelernt".to_string(), "x.yaml") {
        Met::Learning(Some(report)) => assert_eq!(report.outcome, MidiOutcome::Learned),
        other => panic!("{other:?}"),
    }
    assert!(!bridge.is_learning());
    assert!(matches!(bridge.meet(&press(36), String::new(), "x.yaml"), Met::Mapping));
}

#[test]
fn an_action_without_a_session_is_refused() {
    let mut bridge = MidiBridge::new();
    bridge.take_feed(false);
    let mut session = None;
    let served = bridge.serve(
        &mut session,
        &press(36),
        Resolution::Action(MidiAction::ClearAll),
        "120",
        0,
    );
    assert_eq!(served, Served::Told { rearm: false });
    assert!(session.is_none());
    let feed = bridge.take_feed(false).unwrap();
    assert_eq!(feed.events[0].outcome, MidiOutcome::Refused);
    assert_eq!(feed.events[0].note.as_deref(), Some("Die Engine laeuft nicht. Erst starten."));
}
