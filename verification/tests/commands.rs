use looper_engine::command::{
    buffer_channel, command_channel, status_channel, Command, Refusal, Status, TrackLatency,
    TrackState, TrackStatus,
};
use looper_engine::bus::{Bus, BusRouting};
use looper_engine::single::Single;
use looper_engine::timeline::Bpm;

fn single(x: f32) -> Single {
    Single { bits: x.to_bits() }
}

fn status(pos: u64) -> Status {
    Status {
        pos,
        bar: 0,
        beat: 0,
        beat_offset: 0,
        tracks: [TrackStatus::default(); 8],
        track_count: 2,
        output_peak: single(0.0),
        click: false,
        bpm: Bpm { bits: 100.0f64.to_bits() },
        main_gain: single(1.0),
        monitor_gain: single(0.5),
        bus_out: BusRouting::default_for(4),
        output_channels: 4,
        ignored_commands: 0,
        refusal: Refusal::Nothing,
        spares: 0,
        buffers_taken: 0,
        stopped: false,
    }
}

#[test]
fn timestamps_are_reported_per_variant() {
    assert_eq!(Command::StartRecord { track: 0, at: 42 }.at(), Some(42));
    assert_eq!(Command::StopPlay { track: 0, at: 7 }.at(), Some(7));
    assert_eq!(Command::SetMonitor { track: 0, on: true }.at(), None);
    assert_eq!(Command::Stop.at(), None);
}

#[test]
fn commands_arrive_in_order_and_can_be_peeked() {
    let (mut tx, mut rx) = command_channel(8);
    tx.send(Command::StartRecord { track: 0, at: 10 }).unwrap();
    tx.send(Command::StopRecord { track: 0, at: 20 }).unwrap();
    assert_eq!(rx.peek(), Some(Command::StartRecord { track: 0, at: 10 }));
    assert_eq!(rx.peek(), Some(Command::StartRecord { track: 0, at: 10 }));
    assert_eq!(rx.pop(), Some(Command::StartRecord { track: 0, at: 10 }));
    assert_eq!(rx.pop(), Some(Command::StopRecord { track: 0, at: 20 }));
    assert_eq!(rx.pop(), None);
}

#[test]
fn status_receiver_keeps_only_the_newest() {
    let (mut tx, mut rx) = status_channel(8);
    for pos in 0..5u64 {
        tx.push(status(pos));
    }
    assert_eq!(rx.latest().map(|s| s.pos), Some(4));
    assert!(rx.latest().is_none());
}

#[test]
fn buffers_travel_both_ways() {
    let (mut control, mut audio) = buffer_channel(2);
    control.install(vec![0; 16]).unwrap();
    let taken = audio.take_new().expect("Puffer kommt an");
    assert_eq!(taken.len(), 16);
    audio.retire(taken);
    control.drain_retired();
    assert!(audio.take_new().is_none());
}

#[test]
fn a_full_queue_is_an_error_and_nothing_is_lost() {
    let (mut tx, mut rx) = command_channel(2);
    tx.send(Command::Stop).unwrap();
    tx.send(Command::SetClick { on: true }).unwrap();
    let err = tx.send(Command::Stop).expect_err("voll");
    assert!(!err.is_empty());
    assert_eq!(rx.pop(), Some(Command::Stop));
    assert_eq!(rx.pop(), Some(Command::SetClick { on: true }));
    assert_eq!(rx.pop(), None);

    let (mut tx, mut rx) = status_channel(2);
    for pos in 0..5u64 {
        tx.push(status(pos));
    }
    assert_eq!(rx.latest().map(|s| s.pos), Some(1), "ein voller Kanal verwirft das Neue");

    let (mut control, _audio) = buffer_channel(1);
    control.install(vec![7; 4]).unwrap();
    assert!(control.install(vec![8; 4]).is_err());
}

#[test]
fn a_buffer_arrives_with_what_it_holds() {
    let (mut control, mut audio) = buffer_channel(2);
    control.install(vec![1, 2, 3]).unwrap();
    control.install(vec![4]).unwrap();
    assert_eq!(audio.take_new(), Some(vec![1, 2, 3]));
    assert_eq!(audio.take_new(), Some(vec![4]));
    assert_eq!(audio.take_new(), None);
}

#[test]
fn a_tracks_latency_is_its_measurement_plus_the_surcharge() {
    assert!(TrackLatency::inherited().inherits());
    assert_eq!(TrackLatency::inherited().resolve(827), 827);
    let own = TrackLatency { measured: Some(900), trim: -40 };
    assert!(!own.inherits());
    assert_eq!(own.resolve(827), 860);
    assert_eq!(TrackLatency { measured: None, trim: 33 }.resolve(827), 860);
    assert_eq!(TrackLatency { measured: Some(10), trim: -40 }.resolve(827), 0);
}

#[test]
fn every_command_knows_its_track() {
    assert_eq!(Command::StartOverdub { track: 3, at: 0 }.track(), Some(3));
    assert_eq!(Command::SetPan { track: 1, pan: single(0.5) }.track(), Some(1));
    assert_eq!(Command::ClearAll { at: 5 }.track(), None);
    assert_eq!(Command::SetBusGain { bus: Bus::Main, gain: single(1.0) }.track(), None);
    assert_eq!(Command::ClearAll { at: 5 }.at(), Some(5));
}

#[test]
fn a_status_speaks_of_its_tracks_and_its_buses() {
    let mut s = status(9);
    assert_eq!(s.bus_gain(Bus::Main), single(1.0));
    assert_eq!(s.bus_gain(Bus::Monitor), single(0.5));
    assert!(!s.any_busy());
    s.tracks[1].state = TrackState::Recording;
    assert_eq!(s.track(1).state, TrackState::Recording);
    assert!(s.any_busy());
    assert_eq!(s.track(99), TrackStatus::default());
    s.tracks[1].state = TrackState::Empty;
    s.tracks[5].state = TrackState::Recording;
    assert!(!s.any_busy(), "nur die Tracks, die es gibt");
}

#[test]
fn a_meter_is_the_louder_of_its_sides() {
    let mut ts = TrackStatus::default();
    ts.input_peak = [single(0.25), single(0.5)];
    ts.output_peak = [single(0.75), single(0.5)];
    assert_eq!(ts.input_peak_max(), single(0.5));
    assert_eq!(ts.output_peak_max(), single(0.75));
    ts.channels = 2;
    ts.input_channels = [2, 3];
    assert_eq!(ts.used_input_channels(), vec![2, 3]);
    ts.channels = 1;
    assert_eq!(ts.used_input_channels(), vec![2]);
}

#[test]
fn every_refusal_but_nothing_has_a_sentence() {
    assert_eq!(Refusal::Nothing.message(), None);
    for refusal in [
        Refusal::NoSuchTarget,
        Refusal::Busy,
        Refusal::LayerLimit,
        Refusal::NoBuffer,
        Refusal::Tempo,
    ] {
        assert!(refusal.message().is_some(), "{refusal:?}");
    }
}

#[test]
fn what_came_back_is_dropped_until_nothing_is_left() {
    let (mut control, mut audio) = buffer_channel(3);
    for content in 0..3 {
        audio.retire(vec![content; 4]);
    }
    assert_eq!(control.take_retired(), Some(vec![0; 4]), "das Aelteste zuerst");
    control.drain_retired();
    assert_eq!(control.take_retired(), None);

    let (mut tx, mut rx) = status_channel(4);
    for pos in 0..4 {
        tx.push(status(pos));
    }
    assert_eq!(rx.latest().map(|s| s.pos), Some(3));
    assert!(rx.latest().is_none(), "alles Aeltere ist fort");
}
