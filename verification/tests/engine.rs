use looper_engine::bus::{Bus, BusRouting, BusSend, TrackSource};
use looper_engine::command::{
    buffer_channel, command_channel, status_channel, BufferChannel, Command, CommandSender,
    Refusal, StatusReceiver, TrackState,
};
use looper_engine::model::Source;
use looper_engine::process::{EngineConfig, EngineCore};
use looper_engine::single::Single;
use looper_engine::timeline::{Bpm, TimeSignature, Timeline};
use looper_engine::track::Track;
use looper_engine::waiting::next_due;

const LATENCY: u64 = 100;
const LOOP: u64 = 4_800;

fn single(x: f32) -> Single {
    Single { bits: x.to_bits() }
}

fn bpm(value: f64) -> Bpm {
    Bpm { bits: value.to_bits() }
}

struct Rig {
    core: EngineCore,
    cmd: CommandSender,
    status: StatusReceiver,
    buffers: BufferChannel,
    frame: u64,
}

fn rig() -> Rig {
    let (cmd, commands) = command_channel(64);
    let (status_tx, status) = status_channel(256);
    let (mut buffers, endpoint) = buffer_channel(16);
    for _ in 0..3 {
        buffers.install(vec![0; LOOP as usize + 64]).unwrap();
    }
    let core = EngineCore::new(EngineConfig {
        timeline: Timeline::new(48_000, bpm(100.0), TimeSignature::new(4, 4)),
        latency_samples: LATENCY,
        input_channels: 2,
        tracks: vec![Track::new(0, false, 48_000), Track::new(1, true, 48_000)],
        spare_slots: 3,
        layer_capacity: LOOP + 64,
        commands,
        status: status_tx,
        buffers: endpoint,
        click: false,
        main_gain: single(1.0),
        monitor_gain: single(1.0),
        routing: BusRouting::default_for(2),
        output_channels: 2,
        status_interval: 64,
    });
    Rig { core, cmd, status, buffers, frame: 0 }
}

/// What input `channel` carries at a frame of the input axis: a number nobody else has.
fn played(frame: u64, channel: u64) -> u32 {
    (0.001f32 + (frame * 2 + channel) as f32 / 100_000.0).to_bits()
}

/// Run the engine in blocks of 64 frames, every input frame with its own sample.
fn run(r: &mut Rig, frames: u64) {
    let mut left = frames;
    while left > 0 {
        let n = left.min(64);
        r.core.begin_block();
        let mut cursor = 0;
        loop {
            let step = r.core.next_step(cursor, n as usize);
            cursor = step.boundary;
            match step.command {
                Some(index) => r.core.carry_out(index),
                None => break,
            }
        }
        let mut input = Vec::new();
        for f in r.frame..r.frame + n {
            input.push(played(f, 0));
            input.push(played(f, 1));
        }
        let mut output = vec![0u32; n as usize];
        r.core.end_block(&input, &mut output);
        r.frame += n;
        left -= n;
    }
}

/// The whole compensation in one sentence: what arrives at input frame `k` was played at position
/// `k - latency`, and that is where it is stored.
#[test]
fn a_take_holds_what_was_played_at_its_positions() {
    let mut r = rig();
    let start = 1_000;
    r.cmd.send(Command::StartRecord { track: 1, at: start }).unwrap();
    r.cmd.send(Command::StopRecord { track: 1, at: start + LOOP }).unwrap();
    r.cmd.send(Command::StartPlay { track: 1, at: start + LOOP }).unwrap();
    run(&mut r, start + LOOP + LATENCY + 500);
    let track = r.core.track(1);
    assert_eq!(track.layer_count(), 1);
    assert_eq!(track.loop_len, LOOP);
    assert_eq!(track.state(r.core.position()), TrackState::Playing);
    for offset in [0, 1, 17, 4_000, LOOP - 1] {
        let pos = start + offset;
        assert_eq!(track.layer_sample(0, pos), played(pos + LATENCY, 1), "Position {pos}");
        assert_eq!(track.layer_sample(0, pos + 7 * LOOP), played(pos + LATENCY, 1), "im Kreis");
    }
    assert_eq!(r.core.track(0).layer_count(), 0, "der andere Track bleibt leer");
}

#[test]
fn an_overdub_adds_a_layer_of_the_same_length() {
    let mut r = rig();
    r.cmd.send(Command::StartRecord { track: 0, at: 1_000 }).unwrap();
    r.cmd.send(Command::StopRecord { track: 0, at: 1_000 + LOOP }).unwrap();
    r.cmd.send(Command::StartPlay { track: 0, at: 1_000 + LOOP }).unwrap();
    let again = 1_000 + 2 * LOOP;
    r.cmd.send(Command::StartOverdub { track: 0, at: again }).unwrap();
    r.cmd.send(Command::StopRecord { track: 0, at: again + LOOP }).unwrap();
    run(&mut r, again + LOOP + LATENCY + 64);
    let track = r.core.track(0);
    assert_eq!(track.layer_count(), 2);
    assert_eq!(track.layer_sample(0, again), played(1_000 + LATENCY, 0), "die erste bleibt");
    assert_eq!(track.layer_sample(1, again + 5), played(again + 5 + LATENCY, 0));
    let status = r.status.latest().unwrap();
    assert_eq!(status.track(0).layers, 2);
    assert_eq!(status.track(0).loop_len, LOOP);

    r.cmd.send(Command::SetLayerMute { track: 0, layer: 1, muted: true }).unwrap();
    r.cmd.send(Command::SetLayerGain { track: 0, layer: 0, gain: single(0.5) }).unwrap();
    run(&mut r, 64);
    assert_eq!(r.core.track(0).muted_mask(), 0b10);
    assert_eq!(r.core.track(0).layers[0].gain, single(0.5));
    r.cmd.send(Command::RemoveLayer { track: 0, layer: 0 }).unwrap();
    run(&mut r, 64);
    assert_eq!(r.core.track(0).layer_count(), 1);
    assert_eq!(r.core.track(0).layer_sample(0, again + 5), played(again + 5 + LATENCY, 0));
    r.buffers.drain_retired();
}

#[test]
fn clearing_gives_every_buffer_back() {
    let mut r = rig();
    run(&mut r, 64);
    assert_eq!(r.core.spare_count(), 3);
    r.cmd.send(Command::StartRecord { track: 0, at: 500 }).unwrap();
    r.cmd.send(Command::StartRecord { track: 1, at: 500 }).unwrap();
    run(&mut r, 1_000);
    assert_eq!(r.core.spare_count(), 1);
    r.cmd.send(Command::ClearAll { at: 1_500 }).unwrap();
    run(&mut r, 1_000);
    assert_eq!(r.core.track(0).layer_count(), 0);
    assert_eq!(r.core.track(0).state(r.core.position()), TrackState::Empty);
    assert!(r.core.track(1).monitor, "Mithoeren steht wieder wie beim Start");
}

#[test]
fn what_cannot_be_done_is_counted_and_named() {
    let mut r = rig();
    r.cmd.send(Command::SetPan { track: 9, pan: single(0.0) }).unwrap();
    run(&mut r, 128);
    let s = r.status.latest().unwrap();
    assert_eq!((s.ignored_commands, s.refusal), (1, Refusal::NoSuchTarget));
    r.cmd.send(Command::SetLayerMute { track: 0, layer: 4, muted: true }).unwrap();
    run(&mut r, 128);
    assert_eq!(r.status.latest().unwrap().ignored_commands, 2);
    r.cmd.send(Command::StartRecord { track: 0, at: 0 }).unwrap();
    run(&mut r, 64);
    r.cmd
        .send(Command::SetTempo {
            bpm: bpm(90.0),
            signature: TimeSignature::new(4, 4),
            layer_capacity: 10_000,
        })
        .unwrap();
    run(&mut r, 128);
    let s = r.status.latest().unwrap();
    assert_eq!(s.refusal, Refusal::Tempo);
    assert_eq!(s.bpm, bpm(100.0), "das alte Tempo bleibt");
    r.cmd.send(Command::Stop).unwrap();
    run(&mut r, 64);
    assert!(r.core.is_stopped());
}

#[test]
fn a_snapshot_shows_the_place_and_the_loudest_sample() {
    let mut r = rig();
    run(&mut r, 128);
    let s = r.status.latest().unwrap();
    assert_eq!((s.pos, s.bar, s.beat, s.beat_offset), (128, 0, 0, 128));
    assert_eq!(s.track(0).input_peak_max(), Single { bits: played(127, 0) });
    assert_eq!(s.track(1).input_channels[0], 1);
    let mut output = [2.0f32.to_bits(), (-3.0f32).to_bits(), 0.5f32.to_bits()];
    r.core.clamp_and_meter(&mut output);
    assert_eq!(output.map(f32::from_bits), [1.0, -1.0, 0.5]);
}

#[test]
fn the_earliest_command_is_due_first() {
    let waiting = vec![
        Command::StopRecord { track: 0, at: 30 },
        Command::StartRecord { track: 0, at: 10 },
        Command::SetClick { on: true },
        Command::StartPlay { track: 0, at: 10 },
    ];
    assert_eq!(next_due(&waiting, 100, 0), Some((2, 0)), "ohne Zeit heisst sofort");
    assert_eq!(next_due(&vec![waiting[0], waiting[1], waiting[3]], 100, 0), Some((1, 10)));
    assert_eq!(next_due(&vec![waiting[0], waiting[1]], 100, 20), Some((1, 20)));
    assert_eq!(next_due(&vec![waiting[0]], 30, 0), None);
    assert_eq!(next_due(&vec![], 30, 0), None);
}

#[test]
fn a_source_reaches_the_buses_it_is_sent_to() {
    let mut r = rig();
    assert!(!r.core.carries(Bus::Monitor, Source::Click), "der Klick ist aus");
    r.cmd.send(Command::SetClick { on: true }).unwrap();
    r.cmd
        .send(Command::SetTrackSend {
            track: 0,
            source: TrackSource::Monitor,
            send: BusSend::Main,
        })
        .unwrap();
    run(&mut r, 64);
    assert!(r.core.carries(Bus::Monitor, Source::Click));
    assert!(!r.core.carries(Bus::Main, Source::Click), "der Klick geht nie ins Publikum");
    assert!(!r.core.carries(Bus::Main, Source::Input(0)), "Mithoeren ist aus");
    assert!(r.core.carries(Bus::Main, Source::Input(1)));
    assert!(r.core.carries(Bus::Monitor, Source::Input(1)));
    r.cmd.send(Command::SetMonitor { track: 0, on: true }).unwrap();
    run(&mut r, 64);
    assert!(r.core.carries(Bus::Main, Source::Input(0)));
    assert!(!r.core.carries(Bus::Monitor, Source::Input(0)));
    assert!(!r.core.carries(Bus::Main, Source::Loop(0)), "nichts laeuft");
    assert!(!r.core.carries(Bus::Main, Source::Loop(9)), "kein solcher Track");
}

#[test]
fn the_deepest_reduction_is_shown_once() {
    let mut r = rig();
    r.core.note_reduction(0, single(-3.0));
    r.core.note_reduction(0, single(-7.5));
    r.core.note_reduction(0, single(-1.0));
    r.core.note_reduction(9, single(-20.0));
    run(&mut r, 64);
    let s = r.status.latest().unwrap();
    assert_eq!(s.track(0).fx.reduction_db, single(-7.5));
    assert_eq!(s.track(1).fx.reduction_db, single(0.0));
}

#[test]
fn a_stop_silences_a_track_and_keeps_its_layers() {
    let mut r = rig();
    r.cmd.send(Command::StartRecord { track: 0, at: 1_000 }).unwrap();
    r.cmd.send(Command::StopRecord { track: 0, at: 1_000 + LOOP }).unwrap();
    r.cmd.send(Command::StartPlay { track: 0, at: 1_000 + LOOP }).unwrap();
    run(&mut r, 1_000 + LOOP + LATENCY + 64);
    assert!(r.core.carries(Bus::Main, Source::Loop(0)));
    r.cmd.send(Command::StopPlay { track: 0, at: 0 }).unwrap();
    run(&mut r, 64);
    assert!(!r.core.carries(Bus::Main, Source::Loop(0)));
    let track = r.core.track(0);
    assert_eq!(track.state(r.core.position()), TrackState::Ready);
    assert_eq!(track.layer_count(), 1);
    assert_eq!(track.layer_sample(0, 1_000), played(1_000 + LATENCY, 0));
}

/// Removing a layer is how the loop content reaches the control thread: the buffer comes back with
/// what was recorded into it.
#[test]
fn a_removed_layer_comes_back_with_what_was_recorded() {
    let mut r = rig();
    let start = 1_000;
    r.cmd.send(Command::StartRecord { track: 1, at: start }).unwrap();
    r.cmd.send(Command::StopRecord { track: 1, at: start + LOOP }).unwrap();
    run(&mut r, start + LOOP + LATENCY + 500);
    assert!(r.buffers.take_retired().is_none(), "noch ist nichts zurueck");
    r.cmd.send(Command::RemoveLayer { track: 1, layer: 3 }).unwrap();
    run(&mut r, 64);
    assert!(r.buffers.take_retired().is_none(), "eine Ebene, die es nicht gibt, gibt nichts her");
    r.cmd.send(Command::RemoveLayer { track: 1, layer: 0 }).unwrap();
    run(&mut r, 64);
    let buffer = r.buffers.take_retired().expect("der Puffer der Ebene");
    assert!(r.buffers.take_retired().is_none());
    assert_eq!(buffer.len() as u64, LOOP + 64);
    for offset in [0, 1, 17, 4_000, LOOP - 1] {
        assert_eq!(buffer[offset as usize], played(start + offset + LATENCY, 1), "{offset}");
    }
}

/// A cleared track gives its layers back, the newest first.
#[test]
fn a_cleared_track_gives_its_layers_back_newest_first() {
    let mut r = rig();
    r.cmd.send(Command::StartRecord { track: 0, at: 1_000 }).unwrap();
    r.cmd.send(Command::StopRecord { track: 0, at: 1_000 + LOOP }).unwrap();
    let again = 1_000 + 2 * LOOP;
    r.cmd.send(Command::StartOverdub { track: 0, at: again }).unwrap();
    r.cmd.send(Command::StopRecord { track: 0, at: again + LOOP }).unwrap();
    run(&mut r, again + LOOP + LATENCY + 64);
    r.cmd.send(Command::ClearTrack { track: 0, at: 0 }).unwrap();
    run(&mut r, 64);
    let newest = r.buffers.take_retired().expect("die zweite Ebene");
    let oldest = r.buffers.take_retired().expect("die erste Ebene");
    assert_eq!(newest[5], played(again + 5 + LATENCY, 0));
    assert_eq!(oldest[5], played(1_005 + LATENCY, 0));
}
