use looper_engine::audio::{
    asio_status, buffer_range, describe_buffer_size, describe_range, device_line, list_direction,
    no_default, pick_device, resolve_config, scratch_samples, setup_line, unknown_host,
    unsupported_format, BufferRange, Candidate, ConfigRange, DeviceOpts, Direction, SampleFormat,
};
use looper_engine::duplex::{ring_capacity, DuplexStats};
use looper_engine::fifo::{frame_queue, INPUT_FIFO_BUFFERS, RING_BUFFERS};
use looper_engine::logfile::LogFile;
use looper_engine::proto::{CalibrateConfig, HostInfo, StartConfig, TrackConfig};
use looper_engine::single::Single;
use looper_engine::start::{
    calibration_done, check_calibration, check_stop, config_info, emit_due, host_line,
    no_engine, note_failure, tick, track_argument, EMIT_INTERVAL, IDLE_TICK, RUNNING_TICK,
};

fn single(x: f32) -> Single {
    Single { bits: x.to_bits() }
}

fn opts() -> DeviceOpts {
    DeviceOpts {
        host: "wasapi".to_string(),
        device: None,
        rate: 48_000,
        buffer: 128,
        in_channels: None,
        out_channels: None,
        force_buffer: false,
    }
}

fn range(channels: u16, format: SampleFormat) -> ConfigRange {
    ConfigRange {
        channels,
        min_rate: 44_100,
        max_rate: 96_000,
        format,
        buffer: BufferRange::Range { min: 64, max: 1024 },
    }
}

#[test]
fn a_plan_is_the_request_on_a_fitting_range() {
    let ranges = vec![range(2, SampleFormat::I16), range(2, SampleFormat::F32)];
    let plan = resolve_config("Scarlett", Direction::Input, &opts(), &ranges, Ok(2)).unwrap();
    assert_eq!((plan.channels, plan.sample_rate), (2, 48_000));
    assert_eq!(plan.buffer_size, Some(128));
    assert!(matches!(plan.format, SampleFormat::F32), "{:?}", plan.format);
    assert_eq!(plan.warning, None);
    assert_eq!(plan.buffer_frames(), 128);
    assert_eq!(scratch_samples(&plan), 128 * 16 * 2);
}

#[test]
fn a_request_the_device_cannot_meet_is_refused() {
    let ranges = vec![range(2, SampleFormat::F32)];
    let fast = DeviceOpts { rate: 192_000, ..opts() };
    let err = resolve_config("Scarlett", Direction::Input, &fast, &ranges, Ok(2))
        .expect_err("zu schnell");
    assert!(err.contains("192000"), "{err}");
    let err = resolve_config("Scarlett", Direction::Input, &opts(), &ranges, Ok(8))
        .expect_err("zu breit");
    assert!(err.contains('8'), "{err}");
    let small = DeviceOpts { buffer: 16, ..opts() };
    let answer = resolve_config("Scarlett", Direction::Output, &small, &ranges, Ok(2));
    match answer {
        Err(e) => assert!(e.contains("16"), "{e}"),
        Ok(plan) => assert!(plan.warning.is_some()),
    }
    let forced = DeviceOpts { buffer: 16, force_buffer: true, ..opts() };
    let plan = resolve_config("Scarlett", Direction::Output, &forced, &ranges, Ok(2)).unwrap();
    assert_eq!(plan.buffer_size, Some(16));
    assert!(
        resolve_config("Scarlett", Direction::Input, &opts(), &ranges, Err("weg".to_string()))
            .is_err()
    );
    assert!(resolve_config("Scarlett", Direction::Input, &opts(), &vec![], Ok(2)).is_err());
}

#[test]
fn a_device_is_found_by_a_part_of_its_name() {
    let candidates = vec![
        Candidate { name: "Realtek Audio".to_string(), fits: true },
        Candidate { name: "Focusrite USB (Ein)".to_string(), fits: false },
        Candidate { name: "Focusrite USB (Aus)".to_string(), fits: true },
    ];
    let picked = pick_device(&candidates, "focusrite", Direction::Output).unwrap();
    assert_eq!(picked.index, 2);
    let err = pick_device(&candidates, "Behringer", Direction::Output).expect_err("nicht da");
    assert!(err.contains("Behringer"), "{err}");
    assert!(no_default(Direction::Input) != no_default(Direction::Output));
    assert_ne!(Direction::Input.label(), Direction::Output.label());
}

#[test]
fn ranges_are_described() {
    assert_eq!(buffer_range(&BufferRange::Range { min: 16, max: 32 }), (Some(16), Some(32)));
    assert_eq!(buffer_range(&BufferRange::Unknown), (None, None));
    let text = describe_buffer_size(&BufferRange::Range { min: 16, max: 1024 });
    assert!(text.contains("16") && text.contains("1024"), "{text}");
    assert!(!describe_buffer_size(&BufferRange::Unknown).is_empty());
    let text = describe_range(&range(4, SampleFormat::I32));
    assert!(text.contains("44100") && text.contains("96000"), "{text}");
    let odd = SampleFormat::Other("U8".to_string());
    assert_eq!(odd.name(), "U8");
    assert!(unsupported_format(&odd).contains("U8"));
    let lines = list_direction(Direction::Input, &vec![range(2, SampleFormat::F32)], None);
    assert!(lines.len() >= 2, "{lines:?}");
    assert!(device_line("Scarlett", true, false).contains("Scarlett"));
    assert!(setup_line(48_000, 128).contains("48000"));
    let info = config_info(&range(2, SampleFormat::I32));
    assert_eq!((info.channels, info.min_sample_rate, info.max_sample_rate), (2, 44_100, 96_000));
    assert_eq!((info.min_buffer_frames, info.max_buffer_frames), (Some(64), Some(1024)));
    assert_eq!(info.sample_format, "I32");
}

/// The milliseconds of a buffer, to two decimals like a float.
#[test]
fn the_length_of_a_buffer_is_printed_like_a_float() {
    for (rate, buffer) in [(48_000u32, 128u32), (44_100, 256), (44_100, 441), (96_000, 33), (7, 5)] {
        let ms = format!("{:.2}", buffer as f64 * 1000.0 / rate as f64);
        let line = setup_line(rate, buffer);
        assert!(line.contains(&ms), "{ms} fehlt in {line}");
    }
}

#[test]
fn an_asio_host_that_is_missing_says_why() {
    let err = unknown_host("ASIO", "nicht gefunden", &vec![], false);
    assert!(err.starts_with("ASIO-Host nicht verfuegbar: nicht gefunden."), "{err}");
    assert!(err.ends_with(asio_status(false)), "{err}");
    let err = unknown_host("asio", "belegt", &vec![], true);
    assert_eq!(err, "ASIO-Host nicht verfuegbar: belegt. ASIO ist eingebaut (Feature \"asio\").");
}

#[test]
fn whole_frames_go_through_the_queue_or_not_at_all() {
    let (mut tx, mut rx) = frame_queue(3, 2);
    assert!(!tx.feed(&[1, 2, 3, 4]));
    assert!(tx.feed(&[5, 6, 7, 8]), "nur noch ein Frame passt");
    let mut out = [0u32; 8];
    let got = rx.take(&mut out, 4);
    assert_eq!(got, 3, "drei ganze Frames");
    assert_eq!(out, [1, 2, 3, 4, 5, 6, 0, 0]);
    assert_eq!(rx.next(), None);
    assert!(!tx.feed(&[9, 10]));
    assert_eq!((rx.next(), rx.next(), rx.next()), (Some(9), Some(10), None));
    assert_eq!((INPUT_FIFO_BUFFERS, RING_BUFFERS), (64, 4));
}

#[test]
fn a_tapped_input_is_metered_and_its_first_channel_kept() {
    let (mut tx, mut rx) = frame_queue(8, 1);
    let data = [0.5f32, -0.9, 0.25, 0.1].map(f32::to_bits);
    let (peak, overrun) = tx.tap(&data, 2);
    assert!(!overrun);
    assert_eq!(peak, single(0.5), "gemessen wird, was gehoert wird");
    assert_eq!(rx.next().map(f32::from_bits), Some(0.5));
    assert_eq!(rx.next().map(f32::from_bits), Some(0.25));
    assert_eq!(rx.next(), None);
}

#[test]
fn the_counters_of_a_duplex_run_add_up() {
    let mut stats = DuplexStats::default();
    stats.record_input(1_000, single(0.5), false);
    stats.record_input(3_000, single(0.25), true);
    stats.record_output(2_000, true);
    stats.count_error(true);
    stats.count_error(false);
    assert_eq!(stats.callbacks(), 3);
    assert_eq!(stats.interruptions(), 3);
    assert_eq!((stats.cb_nanos_total, stats.cb_nanos_max), (6_000, 3_000));
    assert_eq!(stats.take_peak(), single(0.5));
    assert_eq!(stats.take_peak(), single(0.0), "abgeholt ist abgeholt");
    let text = stats.summary("0.003", "0.002");
    assert!(text.contains("0.003") && text.contains("0.002"), "{text}");
    assert_eq!(ring_capacity(128), 512);
}

#[test]
fn the_host_answers_in_german() {
    assert_eq!(no_engine(), "Die Engine laeuft nicht. Erst starten.");
    assert_eq!(check_stop(true), Ok(()));
    assert_eq!(check_stop(false), Err("Die Engine laeuft nicht.".to_string()));
    let log = LogFile::opened("l.log".to_string(), false, false, true);
    assert!(check_calibration(true, &log).unwrap_err().contains("stoppen"));
    assert_eq!(check_calibration(false, &log), Ok(()));
    let deaf = LogFile::opened("l.log".to_string(), false, false, false);
    assert!(check_calibration(false, &deaf).unwrap_err().contains("l.log"));
    let done = calibration_done("l.log");
    assert_eq!(done.log_path, "l.log");
    assert!(done.message.ends_with("l.log"));
    assert_eq!((tick(true, false), tick(false, true), tick(false, false)), (RUNNING_TICK, RUNNING_TICK, IDLE_TICK));
    assert!(emit_due(EMIT_INTERVAL) && !emit_due(EMIT_INTERVAL - 1));
    assert_eq!(note_failure(None, "Eingang", "weg"), "Eingang: weg");
    assert_eq!(
        note_failure(Some("Eingang: weg".to_string()), "Ausgang", "auch"),
        "Eingang: weg; Ausgang: auch"
    );
    let host = HostInfo {
        name: "wasapi".to_string(),
        error: None,
        default_input: None,
        default_output: None,
        devices: Vec::new(),
    };
    assert_eq!(host_line(&host), "Host wasapi: 0 Geraete, Standard-Ausgang keiner");
}

#[test]
fn configurations_turn_into_device_requests() {
    let track = TrackConfig { input_channel_right: Some(4), ..TrackConfig::mono("klavier", 3) };
    assert_eq!(track_argument(&track), "klavier:3-4");
    assert_eq!(track_argument(&TrackConfig::mono("stimme", 1)), "stimme:1");
    let config = StartConfig { input_channels: Some(2), ..StartConfig::of_tracks(vec![track]) };
    let dev = config.device_opts();
    assert_eq!((dev.rate, dev.buffer, dev.in_channels), (48_000, 128, Some(2)));
    assert_eq!(dev.host, "asio");
    let dev = CalibrateConfig::default().device_opts();
    assert_eq!((dev.rate, dev.buffer, dev.in_channels), (48_000, 128, None));
}

/// A sample that finds no room is lost, the next one is tried again, and as many as there was room
/// for are kept.
#[test]
fn a_full_queue_loses_what_finds_no_room() {
    let (mut tx, mut rx) = frame_queue(2, 1);
    let data = [0.1f32, 0.2, 0.3, 0.4].map(f32::to_bits);
    let (peak, overrun) = tx.tap(&data, 1);
    assert!(overrun);
    assert_eq!(peak, single(0.4));
    assert_eq!(rx.next().map(f32::from_bits), Some(0.1));
    assert_eq!(rx.next().map(f32::from_bits), Some(0.2));
    assert_eq!(rx.next(), None);
    let (_, overrun) = tx.tap(&data[..2], 1);
    assert!(!overrun, "geleert ist wieder Platz");
    assert_eq!(rx.next().map(f32::from_bits), Some(0.1));
}
