//! Starting a session: everything that is checked and laid out before a device makes a sound.
//!
//! Every layer buffer, every queue and the engine itself are made here, in the control thread. What
//! is left to the caller is to open the device and to run the callbacks.
use vstd::prelude::*;
use vstd::string::*;
use crate::audio::{BufferRange, ConfigRange, DeviceOpts};
use crate::bus::{clamped_output, Bus, BusOutput, BusRouting, BusSend};
use crate::calibrate::{check_clock, clock_text};
use crate::command::{
    buffer_channel,
    command_channel,
    status_channel,
    BufferChannel,
    Command,
    CommandSender,
    Refusal,
    Status,
    StatusReceiver,
    TrackLatency,
    TrackState,
    MAX_TRACKS,
};
use crate::fifo::{frame_queue, FrameReader, FrameWriter, INPUT_FIFO_BUFFERS};
use crate::frame::Channels;
use crate::host::{Session, TrackUi, UiModel};
use crate::limits::session_bytes;
use crate::live::TrackDef;
use crate::logfile::LogFile;
use crate::model::{total_buffers, Links, MAX_LATENCY};
use crate::process::{track_models, EngineConfig, EngineCore};
use crate::proto::{
    grid_of,
    AppInfo,
    CalibrateConfig,
    CalibrateOutcome,
    ConfigInfo,
    EngineInfo,
    HostInfo,
    StartConfig,
    TrackConfig,
};
use crate::schedule::{
    grid,
    regridded,
    resolve_tracks,
    track_list_error,
    Quantize,
    Scheduler,
};
use crate::single::Single;
use crate::text::{decimal, push_decimal, trim, trimmed};
use crate::timeline::{TimeSignature, Timeline};
use crate::track::{fresh_chain, Mix, Track, TrackModel, MAX_LAYERS, UNITY};

verus! {

/// Status snapshots per second the audio thread produces.
pub const STATUS_HZ: u32 = 200;

/// Prepared layer buffers kept inside the engine, so an overdub never waits for an allocation.
pub const SPARE_SLOTS: usize = 3;

/// How many commands wait for the audio thread at most.
pub const COMMAND_SLOTS: usize = 256;

/// How many snapshots wait for the control thread at most.
pub const STATUS_SLOTS: usize = 1024;

/// How long the control thread sleeps between rounds while anything is open, in milliseconds.
pub const RUNNING_TICK: u64 = 4;

/// The same while nothing runs.
pub const IDLE_TICK: u64 = 200;

/// Least time between two status events, in milliseconds.
pub const EMIT_INTERVAL: u64 = 50;

/// What a device turned out to be once it was opened.
#[derive(Clone, Copy, Debug, PartialEq, Eq, Structural)]
pub struct Opened {
    pub input_rate: u32,
    pub output_rate: u32,
    pub input_channels: u16,
    pub output_channels: u16,
    pub buffer_frames: u32,
}

impl Opened {
    /// The buffer size, of which there is at least one frame.
    pub open spec fn frames(self) -> u32 {
        if self.buffer_frames == 0 {
            1
        } else {
            self.buffer_frames
        }
    }

    /// Whether the queues this device needs can be counted and held.
    pub open spec fn holdable(self) -> bool {
        &&& self.frames() * 4 + self.input_rate / 50 <= u32::MAX
        &&& self.frames() * INPUT_FIFO_BUFFERS * self.input_channels <= 0x1000_0000
    }

    /// Whether the queues this device needs can be counted and held.
    pub fn can_hold(&self) -> (r: bool)
        ensures
            r == self.holdable(),
    {
        let frames: u64 = if self.buffer_frames == 0 {
            1
        } else {
            self.buffer_frames as u64
        };
        if frames * 4 + self.input_rate as u64 / 50 > u32::MAX as u64 {
            return false;
        }
        assert(frames * INPUT_FIFO_BUFFERS * self.input_channels <= 0x1_0000_0000 * 64 * 0x1_0000)
            by (nonlinear_arith)
            requires
                0 <= frames <= u32::MAX,
                INPUT_FIFO_BUFFERS == 64,
                0 <= self.input_channels <= 0xffff,
        ;
        frames * INPUT_FIFO_BUFFERS as u64 * self.input_channels as u64 <= 0x1000_0000
    }
}

/// A session that is ready to run.
pub struct Started {
    pub session: Session,
    pub core: EngineCore,
    pub status: StatusReceiver,
    pub buffers: BufferChannel,
    pub input: FrameWriter,
    pub output: FrameReader,
    pub defs: Vec<TrackDef>,
    /// Room for a driver block far larger than requested, so no callback ever allocates.
    pub scratch_frames: usize,
}

impl Started {
    /// The engine of this session, and the ends of its queues.
    pub open spec fn parts(self) -> Parts {
        Parts {
            cmd: self.session.cmd,
            core: self.core,
            status: self.status,
            buffers: self.buffers,
            input: self.input,
            output: self.output,
            scratch_frames: self.scratch_frames,
        }
    }
}

pub open spec fn metre_of(config: StartConfig) -> TimeSignature {
    TimeSignature { beats_per_bar: config.beats_per_bar, beat_unit: config.beat_unit }
}

/// What keeps a session from starting, in the order it is checked.
pub open spec fn start_error(config: StartConfig, shown: Seq<char>, opened: Opened) -> Option<
    Seq<char>,
> {
    if config.latency_samples > u32::MAX {
        Some(
            "Die Latenzkompensation muss innerhalb von 96000 Frames liegen (zwei Sekunden bei 48 kHz)."@,
        )
    } else if opened.input_rate != opened.output_rate {
        Some(clock_text(opened.input_rate, opened.output_rate))
    } else {
        match track_list_error(config.tracks@, opened.input_channels as int) {
            Some(text) => Some(text),
            None => match regridded(
                opened.input_rate,
                config.bpm,
                shown,
                metre_of(config),
                config.bars,
                config.latency_samples,
            ) {
                Err(text) => Some(text),
                Ok(_) => None,
            },
        }
    }
}

/// How many channels a track was set up with: naming a second input makes it a stereo one.
pub open spec fn channels_asked(config: TrackConfig) -> Channels {
    if config.input_channel_right is Some {
        Channels::Stereo
    } else {
        Channels::Mono
    }
}

/// A track mirror as a session starts with it.
pub open spec fn fresh_ui(config: TrackConfig) -> UiModel {
    UiModel {
        name: trimmed(config.name@),
        channels: channels_asked(config),
        gains: Seq::empty(),
        latency: TrackLatency { measured: None, trim: 0 },
    }
}

/// Where the two buses leave a device: apart from four channels on, else on one pair.
pub open spec fn default_routing(channels: u16) -> (BusOutput, BusOutput) {
    (
        clamped_output(BusOutput { first: 0, width: 2 }, channels as int),
        clamped_output(
            BusOutput {
                first: if channels >= 4 {
                    2
                } else {
                    0
                },
                width: 2,
            },
            channels as int,
        ),
    )
}

/// Snapshots come every so many samples.
pub open spec fn interval_of(rate: u32) -> int {
    if rate / STATUS_HZ < 1 {
        1
    } else {
        (rate / STATUS_HZ) as int
    }
}

fn fresh_uis(configs: &Vec<TrackConfig>) -> (r: Vec<TrackUi>)
    ensures
        r@.len() == configs@.len(),
        forall|i: int| 0 <= i < configs@.len() ==> (#[trigger] r@[i])@ == fresh_ui(configs@[i]),
{
    let mut r: Vec<TrackUi> = Vec::new();
    let mut i: usize = 0;
    while i < configs.len()
        invariant
            i <= configs.len(),
            r@.len() == i,
            forall|j: int| 0 <= j < i ==> (#[trigger] r@[j])@ == fresh_ui(configs@[j]),
        decreases configs.len() - i,
    {
        let ui = TrackUi {
            name: trim(configs[i].name.as_str()).to_owned(),
            channels: if configs[i].input_channel_right.is_some() {
                Channels::Stereo
            } else {
                Channels::Mono
            },
            gains: Vec::new(),
            latency: TrackLatency::inherited(),
        };
        assert(ui@ =~= fresh_ui(configs@[i as int]));
        r.push(ui);
        i = i + 1;
    }
    r
}

/// Whether a track is as it was made: on its input, in its place between the speakers, with
/// monitoring as configured, heard on both buses, and empty.
pub open spec fn fresh_track(
    track: TrackModel,
    channel: usize,
    monitor: bool,
    pan: Single,
    rate: u32,
) -> bool {
    &&& fresh_chain(track.chain, rate)
    &&& track == (TrackModel {
        input_channel: channel,
        monitor,
        monitor_at_start: monitor,
        playing: false,
        layers: Seq::empty(),
        origin: 0,
        loop_len: 0,
        filled: 0,
        take: None,
        pending: None,
        input_peak: Single { bits: 0 },
        output_peak: Single { bits: 0 },
        reduction_db: Single { bits: 0 },
        mix: Mix {
            pan,
            loop_send: BusSend::Both,
            monitor_send: BusSend::Both,
            latency: TrackLatency { measured: None, trim: 0 },
        },
        chain: track.chain,
    })
}

pub(crate) proof fn lemma_fresh_tracks_hold_nothing(tracks: Seq<TrackModel>)
    requires
        forall|i: int| 0 <= i < tracks.len() ==> (#[trigger] tracks[i]).buffers() == 0,
    ensures
        total_buffers(tracks) == 0,
    decreases tracks.len(),
{
    if tracks.len() > 0 {
        assert forall|i: int| 0 <= i < tracks.len() - 1 implies (
        #[trigger] tracks.drop_last()[i]).buffers() == 0 by {
            assert(tracks.drop_last()[i] == tracks[i]);
        }
        lemma_fresh_tracks_hold_nothing(tracks.drop_last());
    }
}

fn fresh_tracks(
    defs: &Vec<TrackDef>,
    configs: &Vec<TrackConfig>,
    monitor: bool,
    rate: u32,
) -> (r: Vec<Track>)
    requires
        defs@.len() == configs@.len(),
    ensures
        r@.len() == defs@.len(),
        forall|i: int| 0 <= i < defs@.len() ==> (#[trigger] r@[i]).wf(),
        forall|i: int|
            0 <= i < defs@.len() ==> fresh_track(
                (#[trigger] r@[i])@,
                defs@[i].channel,
                monitor,
                configs@[i].pan,
                rate,
            ) && r@[i]@.buffers() == 0,
        total_buffers(track_models(r@)) == 0,
{
    let mut r: Vec<Track> = Vec::new();
    let mut i: usize = 0;
    while i < defs.len()
        invariant
            i <= defs.len(),
            defs@.len() == configs@.len(),
            r@.len() == i,
            forall|j: int| 0 <= j < i ==> (#[trigger] r@[j]).wf(),
            forall|j: int|
                0 <= j < i ==> fresh_track(
                    (#[trigger] r@[j])@,
                    defs@[j].channel,
                    monitor,
                    configs@[j].pan,
                    rate,
                ) && r@[j]@.buffers() == 0,
        decreases defs.len() - i,
    {
        let mut track = Track::new(defs[i].channel, monitor, rate);
        track.mix = Mix { pan: configs[i].pan, ..track.mix };
        r.push(track);
        i = i + 1;
    }
    proof {
        let models = track_models(r@);
        assert forall|j: int| 0 <= j < models.len() implies (#[trigger] models[j]).buffers() == 0 by {
            assert(models[j] == r@[j]@);
        }
        lemma_fresh_tracks_hold_nothing(models);
    }
    r
}

/// The engine, and the ends of its queues that stay outside.
pub struct Parts {
    pub cmd: CommandSender,
    pub core: EngineCore,
    pub status: StatusReceiver,
    pub buffers: BufferChannel,
    pub input: FrameWriter,
    pub output: FrameReader,
    pub scratch_frames: usize,
}

/// Whether an engine is as it was laid out: on its grid, at its beginning, with these tracks and
/// with nothing in its queues.
pub open spec fn laid_out(
    parts: Parts,
    opened: Opened,
    timeline: Timeline,
    layer_frames: u64,
    latency: u64,
    click: bool,
    tracks: Seq<TrackModel>,
) -> bool {
    &&& parts.cmd.sent() == Seq::<Command>::empty()
    &&& parts.core.wf()
    &&& parts.core@.timeline == timeline
    &&& parts.core@.latency == latency
    &&& parts.core@.out_pos == 0
    &&& parts.core@.in_index == 0
    &&& parts.core@.input_channels == opened.input_channels
    &&& parts.core@.tracks == tracks
    &&& parts.core@.layer_capacity == layer_frames
    &&& parts.core@.click == click
    &&& parts.core@.main_gain == (Single { bits: UNITY })
    &&& parts.core@.monitor_gain == (Single { bits: UNITY })
    &&& parts.core@.routing == default_routing(opened.output_channels)
    &&& parts.core@.output_channels == opened.output_channels
    &&& parts.core@.spare_slots == SPARE_SLOTS
    &&& parts.core@.status_interval == interval_of(opened.input_rate)
    &&& parts.input.width() == opened.input_channels
    &&& parts.output.width() == opened.input_channels
    &&& parts.input.written() == Seq::<u32>::empty()
    &&& parts.output.taken() == Seq::<u32>::empty()
    &&& parts.scratch_frames == opened.frames() * 16
    &&& parts.core@.links == (Links {
        commands: parts.cmd.queue(),
        statuses: parts.status.queue(),
        buffers: parts.buffers.queue(),
        returns: parts.buffers.return_queue(),
    })
    &&& parts.input.queue() == parts.output.queue()
    &&& parts.cmd.room() == COMMAND_SLOTS
    &&& parts.core@.status_room == STATUS_SLOTS
    &&& parts.buffers.room() == buffer_slots(tracks.len())
    &&& parts.core.return_room() == buffer_slots(tracks.len())
    &&& parts.input.room() == opened.frames() * INPUT_FIFO_BUFFERS * opened.input_channels
    &&& parts.status.seen() == Seq::<Status>::empty()
    &&& parts.buffers.installed() == Seq::<Seq<u32>>::empty()
    &&& parts.buffers.came_back() == Seq::<Seq<u32>>::empty()
    &&& parts.core@.collected == Seq::<Command>::empty()
    &&& parts.core@.arrived == Seq::<Seq<u32>>::empty()
    &&& parts.core@.published == Seq::<Status>::empty()
}

/// How many buffers the queues between the threads hold in each direction: every one that can be
/// inside the engine at once, and a few more.
pub open spec fn buffer_slots(tracks: nat) -> int {
    tracks * MAX_LAYERS + SPARE_SLOTS + 8
}

/// Make the engine and its queues for a device that was opened. The queue for layer buffers has
/// room for every buffer that can be inside the engine at once, so the audio thread can always hand
/// one back.
pub(crate) fn lay_out(
    opened: &Opened,
    timeline: Timeline,
    layer_frames: u64,
    latency: u64,
    click: bool,
    tracks: Vec<Track>,
) -> (r: Parts)
    requires
        opened.holdable(),
        opened.input_channels > 0,
        latency <= MAX_LATENCY,
        tracks@.len() <= MAX_TRACKS,
        forall|t: int| 0 <= t < tracks@.len() ==> (#[trigger] tracks@[t]).wf(),
        total_buffers(track_models(tracks@)) == 0,
        timeline.rate() == opened.input_rate,
    ensures
        laid_out(r, *opened, timeline, layer_frames, latency, click, track_models(tracks@)),
{
    let rate: u32 = opened.input_rate;
    let buffer_frames: u32 = if opened.buffer_frames == 0 {
        1
    } else {
        opened.buffer_frames
    };
    let channels: usize = opened.input_channels as usize;
    proof {
        let b: int = buffer_frames as int;
        let c: int = channels as int;
        assert(b * 64 <= 0x1000_0000) by (nonlinear_arith)
            requires
                b * 64 * c <= 0x1000_0000,
                c >= 1,
                b >= 0,
        ;
    }
    let fifo_frames: usize = buffer_frames as usize * INPUT_FIFO_BUFFERS as usize;
    let (input, output) = frame_queue(fifo_frames, channels);
    let (cmd, commands) = command_channel(COMMAND_SLOTS);
    let (status_tx, status) = status_channel(STATUS_SLOTS);
    let (buffers, endpoint) = buffer_channel(tracks.len() * MAX_LAYERS + SPARE_SLOTS + 8);
    let routing = BusRouting::default_for(opened.output_channels as usize);
    let interval: u64 = if rate / STATUS_HZ < 1 {
        1
    } else {
        (rate / STATUS_HZ) as u64
    };
    let core = EngineCore::new(
        EngineConfig {
            timeline,
            latency_samples: latency,
            input_channels: channels,
            tracks,
            spare_slots: SPARE_SLOTS,
            layer_capacity: layer_frames,
            commands,
            status: status_tx,
            buffers: endpoint,
            click,
            main_gain: Single { bits: UNITY },
            monitor_gain: Single { bits: UNITY },
            routing,
            output_channels: opened.output_channels as usize,
            status_interval: interval,
        },
    );
    Parts {
        cmd,
        core,
        status,
        buffers,
        input,
        output,
        scratch_frames: buffer_frames as usize * 16,
    }
}

/// Check a configuration against a device that was opened, and lay a session out for it. `shown` is
/// the tempo as it is written.
pub fn start_session(config: &StartConfig, shown: &str, opened: &Opened) -> (r: Result<
    Started,
    String,
>)
    requires
        opened.holdable(),
    ensures
        match start_error(*config, shown@, *opened) {
            Some(text) => r matches Err(e) && e@ == text,
            None => {
                let layer_frames = regridded(
                    opened.input_rate,
                    config.bpm,
                    shown@,
                    metre_of(*config),
                    config.bars,
                    config.latency_samples,
                )->Ok_0;
                &&& r matches Ok(started)
                &&& started.session@.wf()
                &&& started.session@.scheduler.timeline.rate() == opened.input_rate
                &&& started.session@.scheduler.timeline.tempo() == config.bpm
                &&& started.session@.scheduler.timeline.metre() == metre_of(*config)
                &&& started.session@.scheduler.bars == config.bars
                &&& started.session@.scheduler.guard == opened.frames() * 4 + opened.input_rate / 50
                &&& started.session@.tracks.len() == config.tracks@.len()
                &&& started.core@.tracks.len() == config.tracks@.len()
                &&& started.defs@.len() == config.tracks@.len()
                &&& forall|i: int|
                    0 <= i < config.tracks@.len() ==> {
                        &&& #[trigger] started.session@.tracks[i] == fresh_ui(config.tracks@[i])
                        &&& fresh_track(
                            started.core@.tracks[i],
                            (config.tracks@[i].input_channel - 1) as usize,
                            config.monitor,
                            config.tracks@[i].pan,
                            opened.input_rate,
                        )
                        &&& started.defs@[i].name@ == trimmed(config.tracks@[i].name@)
                        &&& started.defs@[i].channel == config.tracks@[i].input_channel - 1
                    }
                &&& started.session@.output_channels == opened.output_channels
                &&& started.session@.latency_frames == config.latency_samples
                &&& started.session@.layer_frames == layer_frames
                &&& started.session@.quantize == grid_of(config.quantize)
                &&& started.session@.last_refusal == (0u64, Refusal::Nothing)
                &&& started.session@.message is None
                &&& started.session@.last is None
                &&& !started.session@.score_playing
                &&& !started.session@.stopped
                &&& laid_out(
                    started.parts(),
                    *opened,
                    started.session@.scheduler.timeline,
                    layer_frames,
                    config.latency_samples,
                    config.click,
                    started.core@.tracks,
                )
            },
        },
{
    // A compensation nobody could count in frames.
    if config.latency_samples > 0xffff_ffff {
        return Err(
            "Die Latenzkompensation muss innerhalb von 96000 Frames liegen (zwei Sekunden bei 48 kHz).".to_owned(),
        );
    }
    match check_clock(opened.input_rate, opened.output_rate) {
        Ok(()) => {},
        Err(text) => {
            return Err(text);
        },
    }
    let rate: u32 = opened.input_rate;
    let defs: Vec<TrackDef> = match resolve_tracks(&config.tracks, opened.input_channels as usize) {
        Ok(defs) => defs,
        Err(text) => {
            return Err(text);
        },
    };
    let (timeline, layer_frames): (Timeline, u64) = match grid(
        rate,
        config.bpm,
        shown,
        TimeSignature::new(config.beats_per_bar, config.beat_unit),
        config.bars,
        config.latency_samples,
    ) {
        Ok(found) => found,
        Err(text) => {
            return Err(text);
        },
    };
    assert(0 < defs@.len() <= MAX_TRACKS);
    let buffer_frames: u32 = if opened.buffer_frames == 0 {
        1
    } else {
        opened.buffer_frames
    };
    let tracks: Vec<Track> = fresh_tracks(&defs, &config.tracks, config.monitor, rate);
    let ghost models = track_models(tracks@);
    let parts: Parts = lay_out(
        opened,
        timeline,
        layer_frames,
        config.latency_samples,
        config.click,
        tracks,
    );
    let uis: Vec<TrackUi> = fresh_uis(&config.tracks);
    let session = Session {
        cmd: parts.cmd,
        scheduler: Scheduler::new(timeline, config.bars, buffer_frames),
        quantize: Quantize::from(config.quantize),
        tracks: uis,
        output_channels: opened.output_channels as usize,
        latency_frames: config.latency_samples as u32,
        layer_frames,
        score_playing: false,
        message: None,
        last: None,
        last_refusal: (0, Refusal::Nothing),
        stopped: false,
    };
    proof {
        assert forall|i: int| 0 <= i < config.tracks@.len() implies {
            &&& #[trigger] session@.tracks[i] == fresh_ui(config.tracks@[i])
            &&& fresh_track(
                parts.core@.tracks[i],
                (config.tracks@[i].input_channel - 1) as usize,
                config.monitor,
                config.tracks@[i].pan,
                rate,
            )
        } by {
            assert(session@.tracks[i] == session.tracks@[i]@);
            assert(defs@[i].name@ == trimmed(config.tracks@[i].name@));
            assert(parts.core@.tracks[i] == models[i]);
        }
    }
    Ok(
        Started {
            session,
            core: parts.core,
            status: parts.status,
            buffers: parts.buffers,
            input: parts.input,
            output: parts.output,
            defs,
            scratch_frames: parts.scratch_frames,
        },
    )
}

// ---------------------------------------------------------------------------------------------
// Around a session
// ---------------------------------------------------------------------------------------------

/// How long the control thread sleeps: an open controller needs the short round as much as a running
/// engine does.
pub fn tick(running: bool, controller_open: bool) -> (millis: u64)
    ensures
        millis == (if running || controller_open {
            RUNNING_TICK
        } else {
            IDLE_TICK
        }),
{
    if running || controller_open {
        RUNNING_TICK
    } else {
        IDLE_TICK
    }
}

/// Whether it is time for the next status event.
pub fn emit_due(millis: u64) -> (r: bool)
    ensures
        r == (millis >= EMIT_INTERVAL),
{
    millis >= EMIT_INTERVAL
}

/// The answer to an action while nothing runs.
pub fn no_engine() -> (r: String)
    ensures
        r@ == "Die Engine laeuft nicht. Erst starten."@,
{
    "Die Engine laeuft nicht. Erst starten.".to_owned()
}

/// Whether a running engine can be stopped.
pub fn check_stop(running: bool) -> (r: Result<(), String>)
    ensures
        running ==> r is Ok,
        !running ==> (r matches Err(e) && e@ == "Die Engine laeuft nicht."@),
{
    if running {
        Ok(())
    } else {
        Err("Die Engine laeuft nicht.".to_owned())
    }
}

/// Everything the window can know without asking the audio thread. `asio` says whether the ASIO
/// backend is part of the build.
pub fn app_info(version: &str, log: &LogFile, asio: bool) -> (r: AppInfo)
    ensures
        r.version@ == version@,
        r.log_path@ == log.spec_path(),
        r.logging == log.writes(),
        r.asio_built == asio,
        r.max_tracks == MAX_TRACKS,
        r.max_layers == MAX_LAYERS,
{
    AppInfo {
        version: version.to_owned(),
        log_path: log.path().to_owned(),
        logging: log.enabled(),
        asio_built: asio,
        max_tracks: MAX_TRACKS as u32,
        max_layers: MAX_LAYERS as u32,
    }
}

impl StartConfig {
    /// The device this configuration asks for.
    pub fn device_opts(&self) -> (r: DeviceOpts)
        ensures
            r.host@ == self.host@,
            match self.device {
                Some(name) => r.device matches Some(n) && n@ == name@,
                None => r.device is None,
            },
            r.rate == self.sample_rate,
            r.buffer == self.buffer_frames,
            r.in_channels == self.input_channels,
            r.out_channels == self.output_channels,
            r.force_buffer == self.force_buffer,
    {
        DeviceOpts {
            host: self.host.as_str().to_owned(),
            device: match &self.device {
                Some(name) => Some(name.as_str().to_owned()),
                None => None,
            },
            rate: self.sample_rate,
            buffer: self.buffer_frames,
            in_channels: self.input_channels,
            out_channels: self.output_channels,
            force_buffer: self.force_buffer,
        }
    }
}

impl CalibrateConfig {
    /// The device this measurement asks for.
    pub fn device_opts(&self) -> (r: DeviceOpts)
        ensures
            r.host@ == self.host@,
            match self.device {
                Some(name) => r.device matches Some(n) && n@ == name@,
                None => r.device is None,
            },
            r.rate == self.sample_rate,
            r.buffer == self.buffer_frames,
            r.in_channels == self.input_channels,
            r.out_channels == self.output_channels,
            r.force_buffer == self.force_buffer,
    {
        DeviceOpts {
            host: self.host.as_str().to_owned(),
            device: match &self.device {
                Some(name) => Some(name.as_str().to_owned()),
                None => None,
            },
            rate: self.sample_rate,
            buffer: self.buffer_frames,
            in_channels: self.input_channels,
            out_channels: self.output_channels,
            force_buffer: self.force_buffer,
        }
    }
}

/// What keeps a calibration from being run: it needs the device for itself and a file to report to.
pub open spec fn calibration_error(running: bool, logging: bool, path: Seq<char>) -> Option<
    Seq<char>,
> {
    if running {
        Some(
            "Die Engine laeuft. Zum Kalibrieren erst stoppen - die Messung braucht das Geraet fuer sich."@,
        )
    } else if !logging {
        Some(
            "Es laesst sich keine Logdatei schreiben ("@ + path
                + "). Die Kalibrierung gibt ihr Ergebnis dort aus und wird deshalb nicht gestartet."@,
        )
    } else {
        None
    }
}

pub fn check_calibration(running: bool, log: &LogFile) -> (r: Result<(), String>)
    ensures
        match calibration_error(running, log.writes(), log.spec_path()) {
            Some(text) => r matches Err(e) && e@ == text,
            None => r is Ok,
        },
{
    if running {
        return Err(
            "Die Engine laeuft. Zum Kalibrieren erst stoppen - die Messung braucht das Geraet fuer sich.".to_owned(),
        );
    }
    if !log.enabled() {
        let mut text = String::new();
        text.append("Es laesst sich keine Logdatei schreiben (");
        text.append(log.path());
        text.append(
            "). Die Kalibrierung gibt ihr Ergebnis dort aus und wird deshalb nicht gestartet.",
        );
        assert(text@ =~= calibration_error(running, false, log.spec_path())->0);
        return Err(text);
    }
    Ok(())
}

/// The answer of a calibration that is done: a pointer to the log file, where the numbers are.
pub fn calibration_done(path: &str) -> (r: CalibrateOutcome)
    ensures
        r.log_path@ == path@,
        r.message@
            == "Kalibrierung abgeschlossen. Der vollstaendige Bericht mit der Empfehlung fuer die Latenzkompensation dieses Tracks steht in der Logdatei: "@
            + path@,
{
    let mut message = String::new();
    message.append(
        "Kalibrierung abgeschlossen. Der vollstaendige Bericht mit der Empfehlung fuer die Latenzkompensation dieses Tracks steht in der Logdatei: ",
    );
    message.append(path);
    CalibrateOutcome { log_path: path.to_owned(), message }
}

pub open spec fn track_argument_text(track: TrackConfig) -> Seq<char> {
    track.name@ + ":"@ + decimal(track.input_channel as nat) + (match track.input_channel_right {
        Some(right) => "-"@ + decimal(right as nat),
        None => ""@,
    })
}

/// A track as the command line spells it: `NAME:IN` or `NAME:IN-RIGHT`.
pub fn track_argument(track: &TrackConfig) -> (r: String)
    ensures
        r@ == track_argument_text(*track),
{
    let mut r = String::new();
    r.append(track.name.as_str());
    r.append(":");
    push_decimal(&mut r, track.input_channel as u64);
    match track.input_channel_right {
        Some(right) => {
            r.append("-");
            push_decimal(&mut r, right as u64);
        },
        None => {
            r.append("");
        },
    }
    assert(r@ =~= track_argument_text(*track));
    r
}

/// What a device offers, in the terms of the window.
pub fn config_info(range: &ConfigRange) -> (r: ConfigInfo)
    ensures
        r.channels == range.channels,
        r.min_sample_rate == range.min_rate,
        r.max_sample_rate == range.max_rate,
        r.sample_format@ == crate::audio::format_name(range.format@),
        match range.buffer {
            BufferRange::Range { min, max } => r.min_buffer_frames == Some(min)
                && r.max_buffer_frames == Some(max),
            BufferRange::Unknown => r.min_buffer_frames is None && r.max_buffer_frames is None,
        },
{
    let (min_buffer_frames, max_buffer_frames) = crate::audio::buffer_range(&range.buffer);
    ConfigInfo {
        channels: range.channels,
        min_sample_rate: range.min_rate,
        max_sample_rate: range.max_rate,
        sample_format: range.format.name(),
        min_buffer_frames,
        max_buffer_frames,
    }
}

/// The note about a device, with one more direction that could not be queried.
pub open spec fn noted(note: Option<Seq<char>>, label: Seq<char>, error: Seq<char>) -> Seq<char> {
    match note {
        Some(previous) => previous + "; "@ + label + ": "@ + error,
        None => label + ": "@ + error,
    }
}

/// A direction that cannot be queried is not an error - the device simply has nothing on that side,
/// and the reason is appended to the note.
pub fn note_failure(note: Option<String>, label: &str, error: &str) -> (r: String)
    ensures
        r@ == noted(
            match note {
                Some(text) => Some(text@),
                None => None,
            },
            label@,
            error@,
        ),
{
    let mut r = String::new();
    if let Some(previous) = &note {
        r.append(previous.as_str());
        r.append("; ");
    }
    r.append(label);
    r.append(": ");
    r.append(error);
    assert(r@ =~= noted(
        match note {
            Some(text) => Some(text@),
            None => None,
        },
        label@,
        error@,
    ));
    r
}

pub open spec fn host_text(host: HostInfo) -> Seq<char> {
    match host.error {
        Some(error) => "Host "@ + host.name@ + ": "@ + error@,
        None => "Host "@ + host.name@ + ": "@ + decimal(host.devices@.len())
            + " Geraete, Standard-Ausgang "@ + (match host.default_output {
            Some(name) => name@,
            None => "keiner"@,
        }),
    }
}

/// The log line about a host that was surveyed.
pub fn host_line(host: &HostInfo) -> (r: String)
    ensures
        r@ == host_text(*host),
{
    let mut r = String::new();
    r.append("Host ");
    r.append(host.name.as_str());
    r.append(": ");
    match &host.error {
        Some(error) => {
            r.append(error.as_str());
        },
        None => {
            push_decimal(&mut r, host.devices.len() as u64);
            r.append(" Geraete, Standard-Ausgang ");
            match &host.default_output {
                Some(name) => {
                    r.append(name.as_str());
                },
                None => {
                    r.append("keiner");
                },
            }
        },
    }
    assert(r@ =~= host_text(*host));
    r
}

// ---------------------------------------------------------------------------------------------
// What was opened
// ---------------------------------------------------------------------------------------------

/// The names of what was opened, and what the driver says about its buffers.
#[derive(Debug)]
pub struct Device {
    pub host: String,
    pub input: String,
    pub output: String,
    pub input_format: String,
    pub output_format: String,
    pub driver_input_frames: Option<u32>,
    pub driver_output_frames: Option<u32>,
}

/// Whether an entry names a track as it was set up: its trimmed name, its input and its place.
pub open spec fn setup_told(entry: TrackConfig, asked: TrackConfig) -> bool {
    &&& entry.name@ == trimmed(asked.name@)
    &&& entry.input_channel == asked.input_channel
    &&& entry.input_channel_right == asked.input_channel_right
    &&& entry.pan == asked.pan
}

fn setup_of(tracks: &Vec<TrackConfig>) -> (r: Vec<TrackConfig>)
    ensures
        r@.len() == tracks@.len(),
        forall|i: int| 0 <= i < tracks@.len() ==> setup_told(#[trigger] r@[i], tracks@[i]),
{
    let mut r: Vec<TrackConfig> = Vec::new();
    let mut i: usize = 0;
    while i < tracks.len()
        invariant
            i <= tracks.len(),
            r@.len() == i,
            forall|j: int| 0 <= j < i ==> setup_told(#[trigger] r@[j], tracks@[j]),
        decreases tracks.len() - i,
    {
        r.push(
            TrackConfig {
                name: trim(tracks[i].name.as_str()).to_owned(),
                input_channel: tracks[i].input_channel,
                input_channel_right: tracks[i].input_channel_right,
                pan: tracks[i].pan,
            },
        );
        i = i + 1;
    }
    r
}

/// What a session runs on right now: the device as it was opened, and the grid as it stands.
pub fn engine_info(session: &Session, config: &StartConfig, opened: &Opened, device: &Device) -> (r:
    EngineInfo)
    requires
        session@.wf(),
    ensures
        r.host@ == device.host@,
        r.input_device@ == device.input@,
        r.output_device@ == device.output@,
        r.input_channels == opened.input_channels,
        r.output_channels == opened.output_channels,
        r.input_format@ == device.input_format@,
        r.output_format@ == device.output_format@,
        r.sample_rate == session@.scheduler.timeline.rate(),
        r.buffer_frames == opened.frames(),
        r.driver_input_frames == device.driver_input_frames,
        r.driver_output_frames == device.driver_output_frames,
        r.bpm == session@.scheduler.timeline.tempo(),
        r.beats_per_bar == session@.scheduler.timeline.metre().beats_per_bar,
        r.beat_unit == session@.scheduler.timeline.metre().beat_unit,
        r.bars == session@.scheduler.bars,
        r.loop_samples == session@.scheduler.timeline.bar_at(session@.scheduler.bars as int),
        r.latency_samples == session@.latency_frames,
        r.layer_capacity == session@.layer_frames,
        r.max_layers == MAX_LAYERS,
        r.max_tracks == MAX_TRACKS,
        r.memory_bytes == session_bytes(
            session@.layer_frames as int,
            session@.tracks.len() as int,
            SPARE_SLOTS as int,
        ),
        r.tracks@.len() == config.tracks@.len(),
        forall|i: int|
            0 <= i < config.tracks@.len() ==> setup_told(#[trigger] r.tracks@[i], config.tracks@[i]),
{
    let timeline: Timeline = session.scheduler.timeline;
    let signature: TimeSignature = timeline.signature();
    let layers: u128 = session.tracks.len() as u128 * MAX_LAYERS as u128 + SPARE_SLOTS as u128;
    proof {
        let each: int = session.layer_frames * 4;
        assert(0 <= each * layers <= 0x4_0000_0000_0000_0000 * 1000) by (nonlinear_arith)
            requires
                0 <= each <= 0x4_0000_0000_0000_0000,
                0 <= layers <= 1000,
        ;
    }
    EngineInfo {
        host: device.host.as_str().to_owned(),
        input_device: device.input.as_str().to_owned(),
        output_device: device.output.as_str().to_owned(),
        input_channels: opened.input_channels,
        output_channels: opened.output_channels,
        input_format: device.input_format.as_str().to_owned(),
        output_format: device.output_format.as_str().to_owned(),
        sample_rate: timeline.sample_rate(),
        buffer_frames: if opened.buffer_frames == 0 {
            1
        } else {
            opened.buffer_frames
        },
        driver_input_frames: device.driver_input_frames,
        driver_output_frames: device.driver_output_frames,
        bpm: timeline.bpm(),
        beats_per_bar: signature.beats_per_bar,
        beat_unit: signature.beat_unit,
        bars: session.scheduler.bars,
        loop_samples: timeline.bar_start(session.scheduler.bars as u64),
        latency_samples: session.latency_frames as u64,
        layer_capacity: session.layer_frames,
        max_layers: MAX_LAYERS as u32,
        max_tracks: MAX_TRACKS as u32,
        memory_bytes: session.layer_frames as u128 * 4 * layers,
        tracks: setup_of(&config.tracks),
    }
}

/// A session starts exactly where the compensation can be counted, both directions run on one clock,
/// the track list fits the device and the tempo carries the loop.
pub proof fn a_session_starts_where_everything_fits(
    config: StartConfig,
    shown: Seq<char>,
    opened: Opened,
)
    ensures
        start_error(config, shown, opened) is None <==> config.latency_samples <= u32::MAX
            && opened.input_rate == opened.output_rate && track_list_error(
            config.tracks@,
            opened.input_channels as int,
        ) is None && regridded(
            opened.input_rate,
            config.bpm,
            shown,
            TimeSignature { beats_per_bar: config.beats_per_bar, beat_unit: config.beat_unit },
            config.bars,
            config.latency_samples,
        ) is Ok,
{
}

/// A track starts empty and silent, heard on both buses, with the engine's own compensation, and
/// monitored as it was configured.
pub proof fn a_fresh_track_is_empty(
    track: TrackModel,
    channel: usize,
    monitor: bool,
    pan: Single,
    rate: u32,
    now: u64,
    global: int,
)
    requires
        fresh_track(track, channel, monitor, pan, rate),
        global >= 0,
    ensures
        track.state_at(now) == TrackState::Empty,
        track.buffers() == 0,
        track.input_channel == channel,
        track.monitor == monitor,
        track.monitor_at_start == monitor,
        !track.playing,
        track.mix.pan == pan,
        track.mix.loop_send.feeds(Bus::Main) && track.mix.loop_send.feeds(Bus::Monitor),
        track.mix.monitor_send.feeds(Bus::Main) && track.mix.monitor_send.feeds(Bus::Monitor),
        track.mix.latency.resolved(global) == global,
        track.chain.spec_bypass(),
{
}

/// Main leaves on the first pair, and the monitor on the second one where the device has four
/// channels, else with it.
pub proof fn the_buses_start_apart_where_they_can(channels: u16)
    ensures
        channels >= 4 ==> default_routing(channels) == (
            BusOutput { first: 0, width: 2 },
            BusOutput { first: 2, width: 2 },
        ),
        2 <= channels < 4 ==> default_routing(channels) == (
            BusOutput { first: 0, width: 2 },
            BusOutput { first: 0, width: 2 },
        ),
        channels == 1 ==> default_routing(channels) == (
            BusOutput { first: 0, width: 1 },
            BusOutput { first: 0, width: 1 },
        ),
{
}

/// The queue back to the control thread has room for every buffer the engine can hold: all layers of
/// all tracks, a waiting take on each, and the stock.
pub proof fn every_buffer_can_come_back(tracks: nat)
    requires
        tracks <= 8,
    ensures
        buffer_slots(tracks) >= tracks * 32 + tracks + 3,
{
}

/// Snapshots come two hundred times a second, and at least one sample apart.
pub proof fn snapshots_come_at_their_rate(rate: u32)
    ensures
        interval_of(rate) >= 1,
        rate >= 200 ==> interval_of(rate) * 200 <= rate < (interval_of(rate) + 1) * 200,
        rate < 200 ==> interval_of(rate) == 1,
{
}

/// A track mirror starts with the trimmed name, without gains and with the common compensation; a
/// second input makes it a stereo one.
pub proof fn a_fresh_mirror_inherits_the_compensation(config: TrackConfig, global: int)
    requires
        global >= 0,
    ensures
        fresh_ui(config).name == trimmed(config.name@),
        fresh_ui(config).gains.len() == 0,
        fresh_ui(config).latency.resolved(global) == global,
        fresh_ui(config).channels == Channels::Stereo <==> config.input_channel_right is Some,
{
}

/// A laid out engine stands at its beginning: both axes at zero, both buses at full level on their
/// default channels, nothing in any queue, and room for everything that will go through them.
pub proof fn a_laid_out_engine_stands_at_its_beginning(
    parts: Parts,
    opened: Opened,
    timeline: Timeline,
    layer_frames: u64,
    latency: u64,
    click: bool,
    tracks: Seq<TrackModel>,
)
    requires
        laid_out(parts, opened, timeline, layer_frames, latency, click, tracks),
    ensures
        parts.core@.out_pos == 0,
        parts.core@.in_index == 0,
        parts.core@.timeline == timeline,
        parts.core@.latency == latency,
        parts.core@.click == click,
        parts.core@.tracks == tracks,
        parts.core@.layer_capacity == layer_frames,
        parts.core@.main_gain.bits == 0x3f80_0000,
        parts.core@.monitor_gain.bits == 0x3f80_0000,
        parts.core@.routing == default_routing(opened.output_channels),
        parts.core@.input_channels == opened.input_channels,
        parts.core@.output_channels == opened.output_channels,
        parts.cmd.sent().len() == 0,
        parts.cmd.room() == 256,
        parts.core@.status_room == 1024,
        parts.core@.spare_slots == 3,
        parts.core.return_room() >= tracks.len() * 32 + 3,
        parts.cmd.queue() == parts.core@.links.commands,
        parts.status.queue() == parts.core@.links.statuses,
        parts.buffers.queue() == parts.core@.links.buffers,
        parts.buffers.return_queue() == parts.core@.links.returns,
        parts.input.queue() == parts.output.queue(),
{
}

} // verus!
