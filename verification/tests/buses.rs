use looper_engine::bus::{
    routing_note, Bus, BusOutput, BusRouting, BusSend, Feed, TrackSource, BUS_CHANNELS, BUS_COUNT,
    BUS_SAMPLES,
};

/// The two buses of a frame, laid out on the channels of a device the way the routing says.
fn place_buses(buses: &[f32; 4], out: &mut [f32], routing: &BusRouting) {
    for (channel, sample) in out.iter_mut().enumerate() {
        *sample = 0.0;
        for bus in Bus::ALL {
            let left = buses[bus.index() * 2];
            let right = buses[bus.index() * 2 + 1];
            *sample += match routing.get(bus).feed(channel) {
                Feed::Silent => 0.0,
                Feed::Left => left,
                Feed::Right => right,
                Feed::Fold => (left + right) * 0.5,
            };
        }
    }
}

#[test]
fn a_send_is_two_independent_bits() {
    let mut send = BusSend::NONE;
    assert!(send.is_silent());
    assert!(!send.on(Bus::Main));
    send = send.with(Bus::Monitor, true);
    assert_eq!(send, BusSend::MONITOR);
    assert!(send.on(Bus::Monitor));
    assert!(!send.on(Bus::Main));
    send = send.with(Bus::Main, true);
    assert_eq!(send, BusSend::BOTH);
    send = send.with(Bus::Monitor, false);
    assert_eq!(send, BusSend::MAIN);
    assert_eq!(BusSend::from_bits(0xff), BusSend::BOTH);
    assert_eq!(BusSend::BOTH.bits(), 0b11);
}

#[test]
fn a_send_reads_and_writes_the_same_words() {
    for send in [BusSend::NONE, BusSend::MAIN, BusSend::MONITOR, BusSend::BOTH] {
        assert_eq!(BusSend::parse(send.name()), Some(send), "{}", send.name());
    }
    assert_eq!(BusSend::parse("both"), Some(BusSend::BOTH));
    assert_eq!(BusSend::parse(" Main + Monitor "), Some(BusSend::BOTH));
    assert_eq!(BusSend::parse("monitor,main"), Some(BusSend::BOTH));
    assert_eq!(BusSend::parse(""), None);
    assert_eq!(BusSend::parse("saal+quatsch"), None);
    assert_eq!(BusSend::BOTH.label(), "Main+Monitor");
    assert_eq!(BusSend::NONE.short(), "--");
}

/// Four outputs get the split the feature exists for; two get the honest fallback.
#[test]
fn the_default_routing_splits_as_soon_as_there_are_four_outputs() {
    let four = BusRouting::default_for(4);
    assert_eq!(four.get(Bus::Main), BusOutput::pair(0));
    assert_eq!(four.get(Bus::Monitor), BusOutput::pair(2));
    assert!(!four.overlaps());
    assert!(routing_note(&four, 4).is_none());

    let two = BusRouting::default_for(2);
    assert_eq!(two.get(Bus::Main), BusOutput::pair(0));
    assert_eq!(two.get(Bus::Monitor), BusOutput::pair(0));
    assert!(two.overlaps());
    assert!(two.collapsed(), "ein Weg hinaus ist eine Mischung");
    let note = routing_note(&two, 2).expect("zwei Ausgaenge werden erklaert");
    assert!(note.contains("vier"), "{note}");
    assert!(note.contains("Klick"), "{note}");
    assert!(note.contains("genau einmal"), "keine Verdopplung: {note}");
    assert!(note.contains("Y-Kabel"), "der Notbehelf steht drin: {note}");

    // A partial overlap is a routing somebody chose; it really does sum, and says so.
    let odd = BusRouting::new(BusOutput::pair(0), BusOutput::pair(1));
    assert!(odd.overlaps());
    assert!(!odd.collapsed());
    let note = routing_note(&odd, 4).expect("Ueberschneidung wird erklaert");
    assert!(note.contains("teilweise"), "{note}");

    // Eight outputs still default to the first two pairs; more is a routing decision.
    let eight = BusRouting::default_for(8);
    assert_eq!(eight.get(Bus::Monitor), BusOutput::pair(2));
}

#[test]
fn an_output_is_clamped_to_what_the_device_has() {
    assert_eq!(BusOutput::pair(2).clamped(4), BusOutput::pair(2));
    // Asked for 3-4 on a two-output device: the pair moves down rather than losing a side.
    assert_eq!(BusOutput::pair(2).clamped(2), BusOutput::pair(0));
    // One single output channel: everything folds onto it.
    assert_eq!(BusOutput::pair(0).clamped(1), BusOutput::mono(0));
    assert_eq!(BusOutput::mono(5).clamped(2), BusOutput::mono(1));
    // The left half exists, the right one does not: folded onto the left half.
    assert_eq!(BusOutput::pair(1).clamped(2), BusOutput::mono(1));
    assert_eq!(BusOutput::pair(3).clamped(4), BusOutput::mono(3));
    assert_eq!(BusOutput::pair(0).clamped(0), BusOutput::mono(0));
    assert_eq!(BusOutput::pair(0).label(), "1-2");
    assert_eq!(BusOutput::mono(2).label(), "3");
}

/// Four channels: the two buses lie apart and nothing bleeds onto the other pair.
#[test]
fn four_outputs_keep_the_two_buses_apart() {
    let routing = BusRouting::default_for(4);
    let mut out = [9.0f32; 4];
    place_buses(&[0.5, -0.25, 0.125, 1.0], &mut out, &routing);
    assert_eq!(out, [0.5, -0.25, 0.125, 1.0]);

    // Only the click on the monitor bus: the main pair stays digitally silent.
    let mut out = [9.0f32; 4];
    place_buses(&[0.0, 0.0, 0.7, 0.7], &mut out, &routing);
    assert_eq!(out, [0.0, 0.0, 0.7, 0.7]);
}

/// The stopgap: mix on the left, click on the right, both folded to mono.
#[test]
fn a_bus_of_width_one_is_folded_to_mono_at_half_level() {
    let routing = BusRouting::new(BusOutput::mono(0), BusOutput::mono(1));
    assert!(!routing.overlaps());
    let mut out = [9.0f32; 2];
    place_buses(&[1.0, 0.5, 0.4, 0.2], &mut out, &routing);
    assert_eq!(out, [0.75, 0.3]);

    // A device with one single channel: both buses fold onto it and are summed.
    let routing = BusRouting::default_for(1);
    let mut out = [9.0f32; 1];
    place_buses(&[1.0, 1.0, 0.5, 0.5], &mut out, &routing);
    assert_eq!(out, [1.5]);
}

/// Two channels: both buses land on the same pair and are summed, not one of them dropped.
#[test]
fn two_outputs_sum_both_buses_onto_the_one_pair() {
    let routing = BusRouting::default_for(2);
    let mut out = [9.0f32; 2];
    place_buses(&[0.5, -0.25, 0.125, 0.5], &mut out, &routing);
    assert_eq!(out, [0.625, 0.25], "nichts geht verloren, es wird summiert");
}

/// A routing that names channels the device does not have must not write past the end.
#[test]
fn channels_the_device_lacks_are_skipped_rather_than_written_past() {
    let routing = BusRouting::new(BusOutput::pair(0), BusOutput::pair(6));
    let mut out = [9.0f32; 2];
    place_buses(&[0.5, 0.5, 1.0, 1.0], &mut out, &routing);
    assert_eq!(out, [0.5, 0.5]);
    assert_eq!(routing.highest_channel(), 8);
}

#[test]
fn buses_are_numbered_named_and_read_back() {
    assert_eq!((BUS_COUNT, BUS_CHANNELS, BUS_SAMPLES), (2, 2, 4));
    for (index, bus) in Bus::ALL.into_iter().enumerate() {
        assert_eq!(bus.index(), index);
        assert_eq!(Bus::from_index(index), bus);
        assert_eq!(Bus::parse(bus.name()), Some(bus));
        assert_eq!(Bus::parse(&bus.name().to_uppercase()), Some(bus));
    }
    assert_eq!(Bus::parse(" Saal "), Some(Bus::Main));
    assert_eq!(Bus::parse("kopfhoerer"), Some(Bus::Monitor));
    assert_eq!(Bus::parse("klo"), None);
    for source in TrackSource::ALL {
        assert_eq!(TrackSource::parse(source.name()), Some(source));
        assert!(!source.label().is_empty());
    }
    assert_eq!(TrackSource::parse("irgendwas"), None);
}

#[test]
fn a_routing_changes_one_bus_at_a_time() {
    let mut routing = BusRouting::default_for(4);
    routing.set(Bus::Monitor, BusOutput::mono(3));
    assert_eq!(routing.get(Bus::Main), BusOutput::pair(0));
    assert_eq!(routing.get(Bus::Monitor), BusOutput::mono(3));
    let moved = routing.with(Bus::Main, BusOutput::pair(2));
    assert_eq!(moved.get(Bus::Main), BusOutput::pair(2));
    assert_eq!(moved.get(Bus::Monitor), BusOutput::mono(3));
    assert_eq!(moved.clamped(2).get(Bus::Main), BusOutput::pair(0));
    assert_eq!(BusOutput::pair(2).range(), 2..4);
}

/// The note tells the two cases apart.
#[test]
fn a_note_says_whether_the_buses_share_all() {
    let apart = BusRouting::new(BusOutput::pair(0), BusOutput::pair(2));
    assert_eq!(routing_note(&apart, 4), None);
    let same = BusRouting::new(BusOutput::pair(0), BusOutput::pair(0));
    assert!(!routing_note(&same, 2).unwrap().contains("teilweise"));
    assert!(!routing_note(&same, 8).unwrap().contains("teilweise"));
    let partly = BusRouting::new(BusOutput::pair(0), BusOutput::mono(1));
    assert!(routing_note(&partly, 4).unwrap().contains("teilweise"));
}
