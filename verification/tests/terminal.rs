use looper_engine::audio::{BufferRange, ConfigRange, SampleFormat};
use looper_engine::bench::{check_bench, Report, Row};
use looper_engine::bus::{Bus, BusOutput};
use looper_engine::command::{Refusal, Status};
use looper_engine::console::{closing, key_help, start_live, Live, LiveConfig};
use looper_engine::host::Counters;
use looper_engine::listing::{
    list_report, About, Answer, DefaultConfig, ListedDevice, ListedHost, Side,
};
use looper_engine::pool::LayerPool;
use looper_engine::process::EngineCore;
use looper_engine::room::{BankSizes, Ring, STEREO_SPREAD};
use looper_engine::schedule::Quantize;
use looper_engine::single::Single;
use looper_engine::start::Opened;
use looper_engine::survey::{survey_devices, Asked, Found, Listing};
use looper_engine::timeline::Bpm;

fn opened() -> Opened {
    Opened {
        input_rate: 48_000,
        output_rate: 48_000,
        input_channels: 2,
        output_channels: 2,
        buffer_frames: 128,
    }
}

fn config(tracks: &[&str]) -> LiveConfig {
    LiveConfig {
        tracks: tracks.iter().map(|t| t.to_string()).collect(),
        bpm: Bpm { bits: 120f64.to_bits() },
        beats_per_bar: 4,
        beat_unit: 4,
        bars: 2,
        quantize: Quantize::Bar,
        latency_samples: 827,
        monitor: true,
        click: true,
    }
}

fn live(tracks: &[&str]) -> Live {
    match start_live(&config(tracks), "120", &opened()) {
        Ok(live) => live,
        Err(e) => panic!("{e}"),
    }
}

fn refused(config: &LiveConfig, opened: &Opened) -> String {
    match start_live(config, "120", opened) {
        Ok(_) => panic!("das haette nicht starten duerfen"),
        Err(e) => e,
    }
}

fn run(core: &mut EngineCore, blocks: usize) {
    for _ in 0..blocks {
        core.begin_block();
        let mut cursor = 0;
        loop {
            let step = core.next_step(cursor, 128);
            cursor = step.boundary;
            match step.command {
                Some(index) => core.carry_out(index),
                None => break,
            }
        }
        let mut output = [0u32; 128];
        core.end_block(&[0u32; 256], &mut output);
    }
}

#[test]
fn the_looper_starts_with_the_usual_tracks() {
    let l = live(&[]);
    assert_eq!(l.defs.len(), 2);
    assert_eq!((l.control.tracks[0].name.as_str(), l.control.tracks[1].channel), ("stimme", 1));
    assert_eq!(l.control.layer_len, 192_064);
    assert!(l.core.track(0).monitor);
    assert!(l.control.running);
    assert_eq!(l.core.routing().get(Bus::Monitor), BusOutput::pair(0));
    assert_eq!(l.scratch_frames, 128 * 16);
}

#[test]
fn the_looper_says_why_it_does_not_start() {
    let slow = Opened { output_rate: 44_100, ..opened() };
    assert!(refused(&config(&[]), &slow).contains("44100"));
    let fast = LiveConfig { bpm: Bpm { bits: 0f64.to_bits() }, ..config(&[]) };
    assert!(!refused(&fast, &opened()).is_empty());
    assert!(refused(&config(&["stimme:3"]), &opened()).contains("Eingang 3"));
    assert!(refused(&config(&["a:1", "a:2"]), &opened()).contains("kommt zweimal vor"));
    // The clock comes first, whatever else is wrong.
    assert!(refused(&config(&["stimme:3"]), &slow).contains("44100"));
}

#[test]
fn a_snapshot_ends_the_looper_and_tells_a_refusal_once() {
    let mut l = live(&["stimme:1"]);
    run(&mut l.core, 4);
    let status = l.status.latest().expect("ein Status");
    let known = l.control.observe(&status, (0, Refusal::Nothing));
    assert_eq!(known, (0, Refusal::Nothing));
    assert!(l.control.running);
    assert_eq!(l.control.message, "");

    let told = Status { ignored_commands: 1, refusal: Refusal::NoSuchTarget, ..status };
    let known = l.control.observe(&told, known);
    assert_eq!(known, (1, Refusal::NoSuchTarget));
    assert_eq!(Some(l.control.message.as_str()), Refusal::NoSuchTarget.message());
    l.control.message = "anderes".to_string();
    assert_eq!(l.control.observe(&told, known), known);
    assert_eq!(l.control.message, "anderes", "nur einmal");

    let over = Status { stopped: true, ..told };
    l.control.observe(&over, known);
    assert!(!l.control.running);
    l.control.mirror(&over);
    assert!(l.control.tracks[0].gains.is_empty());
}

#[test]
fn the_mirror_follows_the_layers_the_engine_reports() {
    let mut l = live(&["stimme:1"]);
    run(&mut l.core, 4);
    let status = l.status.latest().expect("ein Status");
    l.control.tracks[0].gains = vec![Single { bits: 0.5f32.to_bits() }];
    l.control.mirror(&status);
    assert!(l.control.tracks[0].gains.is_empty(), "die Engine hat keine Ebene");
}

#[test]
fn the_first_and_the_last_lines_are_told() {
    let help = key_help(3, 8, Quantize::Loop);
    assert_eq!(help.len(), 20);
    assert_eq!(
        help[0],
        "Tasten (jeweils mit Enter bestaetigen). Alles ausser 1-3 wirkt auf den gewaehlten Track:"
    );
    assert_eq!(
        help[2],
        "  r   neuer Loop ab dem naechsten Loop-Anfang, 8 Takte (ersetzt vorhandene Ebenen)"
    );
    assert!(key_help(1, 4, Quantize::Bar)[3].contains("der naechsten Taktgrenze"));

    let counters = Counters { xruns: 1, other_errors: 2, underruns: 3, overruns: 4 };
    assert_eq!(
        closing(&counters, "0.412"),
        vec![
            "Xruns (cpal):        1",
            "FIFO leer:           3",
            "FIFO uebergelaufen:  4",
            "Sonstige Fehler:     2",
            "Callback-Dauer max:  0.412 ms",
        ]
    );
}

/// The stock is filled up to its size and then left alone until the engine has taken something.
#[test]
fn a_pool_keeps_its_stock_full() {
    let mut l = live(&["stimme:1"]);
    let mut pool = LayerPool::new(l.buffers, 1_000, 3);
    assert!(pool.service(None));
    run(&mut l.core, 4);
    let status = l.status.latest().expect("ein Status");
    assert_eq!((status.buffers_taken, status.spares), (3, 3));
    assert!(pool.service(Some(&status)));
    run(&mut l.core, 4);
    let status = l.status.latest().expect("ein Status");
    assert_eq!((status.buffers_taken, status.spares), (3, 3), "nichts fehlt");
    assert!(pool.take_retired().is_none());
    pool.set_layer_frames(2_000);
    pool.drain();
}

fn range() -> ConfigRange {
    ConfigRange {
        channels: 2,
        min_rate: 44_100,
        max_rate: 48_000,
        format: SampleFormat::I32,
        buffer: BufferRange::Range { min: 16, max: 1024 },
    }
}

#[test]
fn the_list_shows_every_host_and_every_device() {
    let nothing = list_report(&vec![], false);
    assert_eq!(nothing.len(), 3);
    assert_eq!(nothing[2], "Kein Audio-Host verfuegbar.");

    let hosts = vec![
        ListedHost {
            name: "ASIO".to_string(),
            id: "asio".to_string(),
            answer: Answer::Devices(vec![ListedDevice {
                name: "Focusrite".to_string(),
                default_input: true,
                default_output: false,
                about: Some(About {
                    manufacturer: None,
                    driver: Some("usb".to_string()),
                    kind: "Interface".to_string(),
                    interface: "Usb".to_string(),
                }),
                input: Some(Side {
                    ranges: vec![range()],
                    default: Some(DefaultConfig {
                        channels: 2,
                        rate: 48_000,
                        format: SampleFormat::I32,
                        buffer: BufferRange::Unknown,
                    }),
                }),
                output: None,
            }]),
        },
        ListedHost {
            name: "JACK".to_string(),
            id: "jack".to_string(),
            answer: Answer::Unopened("kein Server".to_string()),
        },
        ListedHost {
            name: "WASAPI".to_string(),
            id: "wasapi".to_string(),
            answer: Answer::Devices(vec![]),
        },
    ];
    let lines = list_report(&hosts, false);
    assert_eq!(lines[2], "=== Host: ASIO (asio) ===");
    assert_eq!(lines[4], "  Geraet: Focusrite  [STANDARD-EINGANG]");
    assert_eq!(lines[5], "    Treiber: usb, Typ: Interface, Anschluss: Usb");
    assert_eq!(lines[8], "      Standard: 2 Kanaele, 48000 Hz, I32, Puffer unbekannt");
    assert_eq!(lines[10], "=== Host: JACK (jack) ===");
    assert_eq!(lines[11], "  Host nicht zu oeffnen: kein Server");
    assert_eq!(lines[14], "  (keine Geraete)");
    assert_eq!(lines.len(), 16);
}

/// A host that does not open is an entry of the report, not a reason to have none, and an unknown
/// buffer range stays unknown.
#[test]
fn the_survey_tells_of_every_host() {
    let asked = vec![
        Asked {
            name: "ASIO".to_string(),
            default_input: Some("Focusrite".to_string()),
            default_output: None,
            listing: Listing::Devices(vec![Found {
                name: "Focusrite".to_string(),
                input: true,
                output: false,
                input_configs: Ok(vec![
                    range(),
                    ConfigRange { buffer: BufferRange::Unknown, ..range() },
                ]),
                output_configs: Err("besetzt".to_string()),
            }]),
        },
        Asked {
            name: "Jack".to_string(),
            default_input: None,
            default_output: None,
            listing: Listing::Unopened("kein Server".to_string()),
        },
    ];
    let report = survey_devices(&asked, false);
    assert!(!report.asio_built);
    assert_eq!((report.hosts[0].name.as_str(), report.hosts[1].name.as_str()), ("asio", "jack"));
    let device = &report.hosts[0].devices[0];
    assert_eq!(device.input_configs[0].min_buffer_frames, Some(16));
    assert_eq!(device.input_configs[1].min_buffer_frames, None);
    assert_eq!(device.input_configs[0].sample_format, "I32");
    assert!(device.output_configs.is_empty());
    assert!(report.hosts[0].error.is_none());
    assert!(report.hosts[1].error.as_deref().unwrap().contains("kein Server"));
    assert!(report.hosts[1].devices.is_empty());
}

#[test]
fn the_room_has_the_size_it_promises() {
    let left = BankSizes::new(48_000, 0);
    let right = BankSizes::new(48_000, STEREO_SPREAD);
    let samples = left.buffered_samples() + right.buffered_samples();
    // 12 587 samples at 44.1 kHz per bank, plus 12 * 23 samples of stereo spread on the right one,
    // scaled to 48 kHz - and then twice, because there are two banks.
    assert!((26_000..30_000).contains(&samples), "{samples} Samples in den Puffern");
    assert_eq!(BankSizes::new(44_100, 0).combs, vec![1116, 1188, 1277, 1356, 1422, 1491, 1557, 1617]);
    assert_eq!(left.combs[0], (1116.0f64 * 48_000.0 / 44_100.0).round() as usize);
    assert_eq!(right.longest_comb(), (1640.0f64 * 48_000.0 / 44_100.0).round() as usize);
    for (a, b) in left.combs.iter().zip(&right.combs) {
        assert!(a < b, "die beiden Seiten muessen verschieden klingen");
    }
}

#[test]
fn a_line_delays_by_its_length() {
    let mut ring = Ring::new(5);
    let mut line = vec![0; ring.len];
    for n in 0..40 {
        let at = ring.step();
        if n >= 5 {
            assert_eq!(line[at], n - 5);
        }
        line[at] = n;
    }
    assert_eq!(Ring::new(0).len, 1);
}

#[test]
fn the_measurement_of_the_load_is_checked_and_read() {
    let ok = 0.25f64.to_bits();
    assert!(check_bench(48_000, ok).is_ok());
    assert!(check_bench(8_000, 60f64.to_bits()).is_ok());
    assert!(check_bench(192_000, 0.05f64.to_bits()).is_ok());
    assert_eq!(
        check_bench(7_999, ok),
        Err("Samplerate 7999 liegt ausserhalb von 8000..192000.".to_string())
    );
    for seconds in [0.049, 60.1, -1.0, f64::NAN, f64::INFINITY, 0.0] {
        assert_eq!(
            check_bench(48_000, seconds.to_bits()),
            Err("--seconds muss zwischen 0.05 und 60 liegen.".to_string())
        );
    }
    let report = Report {
        sample_rate: 48_000,
        samples: 12_000,
        rows: vec![
            Row { name: "Hall".to_string(), nanos: 600_000, frames: 12_000 },
            Row { name: "Kette komplett".to_string(), nanos: 2_400_000, frames: 12_000 },
        ],
    };
    assert!(report.get("Delay").is_none());
    let hall = report.get("Hall").expect("Zeile fehlt");
    // 50 ns per frame, of which 48 000 have to fit into a second.
    let share = hall.percent_of_budget(48_000);
    assert_eq!(share.of as f64 / share.per as f64, 0.24);
    let share = report.get("Kette komplett").unwrap().percent_of_budget(48_000);
    assert_eq!(share.of as f64 / share.per as f64, 0.96);
}
