//! Commands with a musical timestamp, the status that comes back, and the channels that carry both.
//!
//! The control thread may send a command arbitrarily early; the audio thread executes it at the
//! sample it is stamped for. That is what makes the engine independent of thread scheduling: no
//! amount of jitter between the threads can move a musical event, as long as the command arrives
//! before its time.
//!
//! Everything crossing the boundary has a fixed size, so nothing is allocated, freed or locked on
//! the audio side. The only exception is the loop buffer itself, which is allocated in the control
//! thread and handed over as a whole through [`BufferChannel`].
use vstd::prelude::*;
use vstd::string::*;
use crate::bus::{Bus, BusOutput, BusRouting, BusSend, TrackSource};
use crate::fx::{preset_knobs, FxParam, FxPreset, FxSlot, FxStatus};
use crate::queue;
use crate::single::Single;
use crate::timeline::{Bpm, TimeSignature};

verus! {

/// Tracks the engine allows. Also the length of the track list in a status snapshot.
pub const MAX_TRACKS: usize = 8;

/// How much of the input a track subtracts while recording: what was measured for it, or the
/// engine's own value, plus what the musician added by hand.
#[derive(Clone, Copy, Debug, PartialEq, Eq, Structural)]
pub struct TrackLatency {
    /// `None` takes the engine's value.
    pub measured: Option<u32>,
    /// Surcharge in frames; may be negative.
    pub trim: i32,
}

impl TrackLatency {
    /// The compensation in frames, never negative, where the engine's own value is `global`.
    pub open spec fn resolved(self, global: int) -> int {
        let base = match self.measured {
            Some(measured) => measured as int,
            None => global,
        };
        if base + self.trim < 0 {
            0
        } else {
            base + self.trim
        }
    }

    /// The engine's value, unchanged.
    pub fn inherited() -> (r: Self)
        ensures
            r == (TrackLatency { measured: None, trim: 0 }),
    {
        TrackLatency { measured: None, trim: 0 }
    }

    /// Whether this track takes the engine's value as its base.
    pub fn inherits(&self) -> (r: bool)
        ensures
            r == self.measured is None,
    {
        self.measured.is_none()
    }

    pub fn resolve(&self, global: u64) -> (r: u64)
        requires
            global <= 0x7fff_ffff_ffff_ffff,
        ensures
            r == self.resolved(global as int),
    {
        let base: i128 = match self.measured {
            Some(measured) => measured as i128,
            None => global as i128,
        };
        let sum: i128 = base + self.trim as i128;
        if sum < 0 {
            0
        } else {
            sum as u64
        }
    }
}

/// One scheduled engine action.
///
/// `at` is an absolute position on the engine's sample timeline - the same axis the audio callback
/// counts in. Commands without `at` take effect at the next block boundary; they carry no musical
/// meaning that would be worth a sample-accurate timestamp.
#[derive(Clone, Copy, Debug, PartialEq, Eq, Structural)]
pub enum Command {
    /// Begin recording; `at` is the position of the first musical sample that lands in the loop.
    StartRecord { track: usize, at: u64 },
    /// Begin a further layer; on an empty track the first take.
    StartOverdub { track: usize, at: u64 },
    /// End recording; `at` is the position just after the last musical sample of the take.
    StopRecord { track: usize, at: u64 },
    StartPlay { track: usize, at: u64 },
    StopPlay { track: usize, at: u64 },
    /// Throw the recorded layers of a track away.
    ClearTrack { track: usize, at: u64 },
    /// Every track as freshly started.
    ClearAll { at: u64 },
    /// Input monitoring (hearing yourself through the engine) on or off.
    SetMonitor { track: usize, on: bool },
    SetLayerMute { track: usize, layer: usize, muted: bool },
    SetLayerGain { track: usize, layer: usize, gain: Single },
    RemoveLayer { track: usize, layer: usize },
    SetPan { track: usize, pan: Single },
    SetTrackSend { track: usize, source: TrackSource, send: BusSend },
    SetTrackLatency { track: usize, latency: TrackLatency },
    SetBusGain { bus: Bus, gain: Single },
    SetBusOutput { bus: Bus, out: BusOutput },
    SetFxBypass { track: usize, on: bool },
    SetFxEnabled { track: usize, slot: FxSlot, on: bool },
    SetFxParam { track: usize, param: FxParam },
    LoadFxPreset { track: usize, preset: FxPreset },
    /// Metronome on or off. The click grid keeps running either way.
    SetClick { on: bool },
    /// New tempo and time signature. Only accepted while every track is empty and idle, because it
    /// redefines what every sample position means.
    SetTempo { bpm: Bpm, signature: TimeSignature, layer_capacity: u64 },
    /// Stop everything (playback and recording) and mark the engine as finished.
    Stop,
}

impl Command {
    /// The position this command is scheduled for, if it has one.
    pub open spec fn time(self) -> Option<u64> {
        match self {
            Command::StartRecord { at, .. } => Some(at),
            Command::StartOverdub { at, .. } => Some(at),
            Command::StopRecord { at, .. } => Some(at),
            Command::StartPlay { at, .. } => Some(at),
            Command::StopPlay { at, .. } => Some(at),
            Command::ClearTrack { at, .. } => Some(at),
            Command::ClearAll { at } => Some(at),
            _ => None,
        }
    }

    /// When this command is due. Untimed commands act at the next opportunity.
    pub open spec fn due(self) -> u64 {
        match self.time() {
            Some(at) => at,
            None => 0,
        }
    }

    /// The track this command addresses, if it addresses one.
    pub open spec fn target(self) -> Option<usize> {
        match self {
            Command::StartRecord { track, .. } => Some(track),
            Command::StartOverdub { track, .. } => Some(track),
            Command::StopRecord { track, .. } => Some(track),
            Command::StartPlay { track, .. } => Some(track),
            Command::StopPlay { track, .. } => Some(track),
            Command::ClearTrack { track, .. } => Some(track),
            Command::SetMonitor { track, .. } => Some(track),
            Command::SetLayerMute { track, .. } => Some(track),
            Command::SetLayerGain { track, .. } => Some(track),
            Command::RemoveLayer { track, .. } => Some(track),
            Command::SetPan { track, .. } => Some(track),
            Command::SetTrackSend { track, .. } => Some(track),
            Command::SetTrackLatency { track, .. } => Some(track),
            Command::SetFxBypass { track, .. } => Some(track),
            Command::SetFxEnabled { track, .. } => Some(track),
            Command::SetFxParam { track, .. } => Some(track),
            Command::LoadFxPreset { track, .. } => Some(track),
            _ => None,
        }
    }

    /// The position this command is scheduled for, if it has one.
    pub fn at(&self) -> (r: Option<u64>)
        ensures
            r == self.time(),
    {
        match *self {
            Command::StartRecord { at, .. } | Command::StartOverdub { at, .. }
            | Command::StopRecord { at, .. } | Command::StartPlay { at, .. } | Command::StopPlay {
                at,
                ..
            } | Command::ClearTrack { at, .. } | Command::ClearAll { at } => Some(at),
            _ => None,
        }
    }

    /// The track this command addresses, if it addresses one.
    pub fn track(&self) -> (r: Option<usize>)
        ensures
            r == self.target(),
    {
        match *self {
            Command::StartRecord { track, .. } | Command::StartOverdub { track, .. }
            | Command::StopRecord { track, .. } | Command::StartPlay { track, .. }
            | Command::StopPlay { track, .. } | Command::ClearTrack { track, .. }
            | Command::SetMonitor { track, .. } | Command::SetLayerMute { track, .. }
            | Command::SetLayerGain { track, .. } | Command::RemoveLayer { track, .. }
            | Command::SetPan { track, .. } | Command::SetTrackSend { track, .. }
            | Command::SetTrackLatency { track, .. } | Command::SetFxBypass { track, .. }
            | Command::SetFxEnabled { track, .. } | Command::SetFxParam { track, .. }
            | Command::LoadFxPreset { track, .. } => Some(track),
            _ => None,
        }
    }
}

/// Why the engine did not do what a command asked for.
#[derive(Clone, Copy, Debug, PartialEq, Eq, Structural)]
pub enum Refusal {
    /// Nothing was refused.
    Nothing,
    /// The track or layer does not exist.
    NoSuchTarget,
    /// A take is running there.
    Busy,
    /// The track is full.
    LayerLimit,
    /// No prepared buffer was at hand.
    NoBuffer,
    /// A tempo change while something is recorded or running.
    Tempo,
}

pub open spec fn refusal_message(refusal: Refusal) -> Option<Seq<char>> {
    match refusal {
        Refusal::Nothing => None,
        Refusal::NoSuchTarget => Some("Unbekanntes Ziel."@),
        Refusal::Busy => Some("Track ist beschaeftigt."@),
        Refusal::LayerLimit => Some("Mehr Ebenen fasst der Track nicht."@),
        Refusal::NoBuffer => Some("Kein vorbereiteter Puffer da."@),
        Refusal::Tempo => Some("Tempo abgelehnt."@),
    }
}

impl Refusal {
    /// The German sentence, if there is anything to say.
    pub fn message(&self) -> (r: Option<&'static str>)
        ensures
            (match r {
                Some(text) => Some(text@),
                None => None,
            }) == refusal_message(*self),
    {
        match *self {
            Refusal::Nothing => None,
            Refusal::NoSuchTarget => Some("Unbekanntes Ziel."),
            Refusal::Busy => Some("Track ist beschaeftigt."),
            Refusal::LayerLimit => Some("Mehr Ebenen fasst der Track nicht."),
            Refusal::NoBuffer => Some("Kein vorbereiteter Puffer da."),
            Refusal::Tempo => Some("Tempo abgelehnt."),
        }
    }
}

/// What a track is doing.
#[derive(Clone, Copy, Debug, PartialEq, Eq, Structural)]
pub enum TrackState {
    /// No layer.
    Empty,
    /// A recording is scheduled but has not started yet.
    Armed,
    /// The first take is running; it defines loop length and origin.
    Recording,
    /// A further layer is being recorded into the existing loop.
    Overdub,
    /// Content available, silent.
    Ready,
    /// Content available, playing.
    Playing,
}

pub open spec fn state_label(state: TrackState) -> Seq<char> {
    match state {
        TrackState::Empty => "leer"@,
        TrackState::Armed => "scharf"@,
        TrackState::Recording => "Aufnahme"@,
        TrackState::Overdub => "Overdub"@,
        TrackState::Ready => "bereit"@,
        TrackState::Playing => "Wiedergabe"@,
    }
}

impl Default for TrackState {
    fn default() -> (r: Self)
        ensures
            r == TrackState::Empty,
    {
        TrackState::Empty
    }
}

impl TrackState {
    /// German word for the display.
    pub fn label(self) -> (r: &'static str)
        ensures
            r@ == state_label(self),
    {
        match self {
            TrackState::Empty => "leer",
            TrackState::Armed => "scharf",
            TrackState::Recording => "Aufnahme",
            TrackState::Overdub => "Overdub",
            TrackState::Ready => "bereit",
            TrackState::Playing => "Wiedergabe",
        }
    }
}

/// One track in a status snapshot.
#[derive(Clone, Copy, Debug, PartialEq, Eq)]
pub struct TrackStatus {
    pub state: TrackState,
    pub layers: u8,
    /// Bit `i` is set where layer `i` is muted.
    pub muted_mask: u32,
    /// Loop length in frames, 0 while nothing is recorded.
    pub loop_len: u64,
    /// Position of the first frame of the loop.
    pub origin: u64,
    /// Frames already written during a running loop-defining take.
    pub filled: u64,
    /// One entry per recorded input channel; the second one is silent on a mono track.
    pub input_peak: [Single; 2],
    pub output_peak: [Single; 2],
    pub monitor: bool,
    pub playing: bool,
    /// Zero-based device inputs; the second entry counts on a stereo track only.
    pub input_channels: [u8; 2],
    /// 1 or 2.
    pub channels: u8,
    pub pan: Single,
    pub loop_send: BusSend,
    pub monitor_send: BusSend,
    pub fx: FxStatus,
}

impl TrackStatus {
    /// A track nobody has touched.
    pub open spec fn fresh(self) -> bool {
        &&& self.state == TrackState::Empty
        &&& self.layers == 0
        &&& self.muted_mask == 0
        &&& self.loop_len == 0
        &&& self.origin == 0
        &&& self.filled == 0
        &&& self.input_peak@ == seq![Single { bits: 0 }, Single { bits: 0 }]
        &&& self.output_peak@ == seq![Single { bits: 0 }, Single { bits: 0 }]
        &&& !self.monitor
        &&& !self.playing
        &&& self.input_channels@ == seq![0u8, 0u8]
        &&& self.channels == 1
        &&& self.pan == (Single { bits: 0 })
        &&& self.loop_send == BusSend::Both
        &&& self.monitor_send == BusSend::Both
        &&& self.fx.bypass
        &&& self.fx.preset == FxPreset::Dry
        &&& self.fx.settings@ == preset_knobs(FxPreset::Dry)
        &&& self.fx.delay_samples == 0
        &&& self.fx.reduction_db == (Single { bits: 0 })
    }

    /// The louder input channel.
    pub fn input_peak_max(&self) -> (r: Single)
        ensures
            r == self.input_peak@[0].larger(self.input_peak@[1]),
    {
        self.input_peak[0].max(self.input_peak[1])
    }

    /// The louder output side.
    pub fn output_peak_max(&self) -> (r: Single)
        ensures
            r == self.output_peak@[0].larger(self.output_peak@[1]),
    {
        self.output_peak[0].max(self.output_peak[1])
    }

    /// The device inputs this track records, zero-based: one where it is mono, two where it is
    /// stereo.
    pub fn used_input_channels(&self) -> (r: Vec<u8>)
        ensures
            r@ == (if self.channels >= 2 {
                seq![self.input_channels@[0], self.input_channels@[1]]
            } else {
                seq![self.input_channels@[0]]
            }),
    {
        let mut r: Vec<u8> = Vec::new();
        r.push(self.input_channels[0]);
        if self.channels >= 2 {
            r.push(self.input_channels[1]);
        }
        assert(r@ =~= (if self.channels >= 2 {
            seq![self.input_channels@[0], self.input_channels@[1]]
        } else {
            seq![self.input_channels@[0]]
        }));
        r
    }
}

impl Default for TrackStatus {
    fn default() -> (r: Self)
        ensures
            r.fresh(),
    {
        let zero = Single { bits: 0 };
        let r = TrackStatus {
            state: TrackState::Empty,
            layers: 0,
            muted_mask: 0,
            loop_len: 0,
            origin: 0,
            filled: 0,
            input_peak: [zero, zero],
            output_peak: [zero, zero],
            monitor: false,
            playing: false,
            input_channels: [0, 0],
            channels: 1,
            pan: zero,
            loop_send: BusSend::Both,
            monitor_send: BusSend::Both,
            fx: FxStatus::default(),
        };
        assert(r.input_peak@ =~= seq![zero, zero]);
        assert(r.output_peak@ =~= seq![zero, zero]);
        assert(r.input_channels@ =~= seq![0u8, 0u8]);
        r
    }
}

/// Snapshot the audio thread pushes back to the control thread.
#[derive(Clone, Copy, Debug, PartialEq, Eq)]
pub struct Status {
    /// Absolute sample position of the engine (the output timeline).
    pub pos: u64,
    /// Zero-based bar at `pos`.
    pub bar: u64,
    /// Zero-based beat inside that bar.
    pub beat: u32,
    /// Samples elapsed inside the current beat.
    pub beat_offset: u64,
    pub tracks: [TrackStatus; 8],
    /// How many entries of `tracks` count.
    pub track_count: u8,
    /// Peak of the produced output, absolute value.
    pub output_peak: Single,
    pub click: bool,
    pub bpm: Bpm,
    pub main_gain: Single,
    pub monitor_gain: Single,
    /// Where the buses leave the machine.
    pub bus_out: BusRouting,
    pub output_channels: usize,
    /// Commands the engine refused so far.
    pub ignored_commands: u64,
    /// Why the last one was refused.
    pub refusal: Refusal,
    /// Prepared layer buffers the engine is holding.
    pub spares: u32,
    /// Prepared layer buffers the engine has taken over so far.
    pub buffers_taken: u64,
    /// Set once a `Stop` command has been executed.
    pub stopped: bool,
}

impl Status {
    /// The tracks that exist.
    pub open spec fn shown(self) -> Seq<TrackStatus> {
        if self.track_count <= MAX_TRACKS {
            self.tracks@.subrange(0, self.track_count as int)
        } else {
            self.tracks@
        }
    }

    /// The snapshot of one track, or that of a fresh one where there is none.
    pub fn track(&self, index: usize) -> (r: TrackStatus)
        ensures
            index < self.shown().len() ==> r == self.shown()[index as int],
            index >= self.shown().len() ==> r.fresh(),
    {
        if index < self.track_count as usize && index < 8 {
            self.tracks[index]
        } else {
            TrackStatus::default()
        }
    }

    /// Volume of one output bus.
    pub fn bus_gain(&self, bus: Bus) -> (r: Single)
        ensures
            r == (match bus {
                Bus::Main => self.main_gain,
                Bus::Monitor => self.monitor_gain,
            }),
    {
        match bus {
            Bus::Main => self.main_gain,
            Bus::Monitor => self.monitor_gain,
        }
    }

    /// Whether any track holds or does something.
    pub fn any_busy(&self) -> (r: bool)
        ensures
            r == (exists|i: int|
                0 <= i < self.shown().len() && self.shown()[i].state != TrackState::Empty),
    {
        let n: usize = if self.track_count as usize <= 8 {
            self.track_count as usize
        } else {
            8
        };
        let mut i: usize = 0;
        while i < n
            invariant
                i <= n,
                n == self.shown().len(),
                n <= 8,
                forall|j: int| 0 <= j < n ==> self.shown()[j] == #[trigger] self.tracks@[j],
                forall|j: int| 0 <= j < i ==> self.shown()[j].state == TrackState::Empty,
            decreases n - i,
        {
            assert(self.shown()[i as int] == self.tracks@[i as int]);
            if self.tracks[i].state != TrackState::Empty {
                return true;
            }
            i = i + 1;
        }
        false
    }
}

// ---------------------------------------------------------------------------------------------
// Channels
// ---------------------------------------------------------------------------------------------

/// Everything that goes through the queue behind a sending end, numbered in the order it is put in:
/// the commands that were, and those that will be.
pub uninterp spec fn commands_through_sender(tx: rtrb::Producer<Command>) -> Map<int, Command>;

/// Everything that goes through the queue behind a receiving end, numbered in the order it comes
/// out.
pub uninterp spec fn commands_through_receiver(rx: rtrb::Consumer<Command>) -> Map<int, Command>;

/// How many commands were put into the queue so far.
pub uninterp spec fn commands_sent(tx: rtrb::Producer<Command>) -> nat;

/// How many commands were taken out of the queue so far.
pub uninterp spec fn commands_taken(rx: rtrb::Consumer<Command>) -> nat;

/// How many slots the sending end has seen free and not used since. The receiving thread can only
/// free more of them.
pub uninterp spec fn free_for_commands(tx: rtrb::Producer<Command>) -> nat;

/// How many commands the receiving end has seen in the queue and not taken out since. The sending
/// thread can only add to them.
pub uninterp spec fn waiting_commands(rx: rtrb::Consumer<Command>) -> nat;

/// `rtrb::RingBuffer::new` for commands: what the one end is given is what the other end gets, every
/// slot is free, and nothing has been sent or taken yet. The bound keeps the memory for the slots
/// below what can be allocated.
#[verifier::external_body]
fn command_ring(capacity: usize) -> (r: (rtrb::Producer<Command>, rtrb::Consumer<Command>))
    requires
        capacity <= 0x4_0000,
    ensures
        commands_through_sender(r.0) == commands_through_receiver(r.1),
        commands_sent(r.0) == 0,
        commands_taken(r.1) == 0,
        free_for_commands(r.0) == capacity,
{
    rtrb::RingBuffer::new(capacity)
}

/// `rtrb::Consumer::pop` for a command: what comes out is the next command of the queue. There is one
/// if one was seen in the queue; nothing comes out only if a look at the queue has just shown it
/// empty.
#[verifier::external_body]
fn pop_command(rx: &mut rtrb::Consumer<Command>) -> (r: Option<Command>)
    ensures
        commands_through_receiver(*final(rx)) == commands_through_receiver(*old(rx)),
        waiting_commands(*old(rx)) > 0 ==> r is Some && waiting_commands(*final(rx)) == waiting_commands(
            *old(rx),
        ) - 1,
        r matches Some(command) ==> commands_taken(*final(rx)) == commands_taken(*old(rx)) + 1
            && commands_through_receiver(*old(rx))[commands_taken(*old(rx)) as int] == command,
        r is None ==> commands_taken(*final(rx)) == commands_taken(*old(rx)) && waiting_commands(
            *final(rx),
        ) == 0,
{
    rx.pop().ok()
}

/// `rtrb::Producer::push` for a command: it is accepted if a slot was seen free, and then it is the
/// next command of the queue. It is refused only if a look at the queue has just shown no free slot.
#[verifier::external_body]
fn push_command(tx: &mut rtrb::Producer<Command>, command: Command) -> (accepted: bool)
    ensures
        commands_through_sender(*final(tx)) == commands_through_sender(*old(tx)),
        free_for_commands(*old(tx)) > 0 ==> accepted && free_for_commands(*final(tx))
            == free_for_commands(*old(tx)) - 1,
        accepted ==> commands_sent(*final(tx)) == commands_sent(*old(tx)) + 1
            && commands_through_sender(*old(tx))[commands_sent(*old(tx)) as int] == command,
        !accepted ==> commands_sent(*final(tx)) == commands_sent(*old(tx)) && free_for_commands(
            *final(tx),
        ) == 0,
{
    tx.push(command).is_ok()
}

/// `rtrb::Consumer::peek` for a command: what is seen is the next command, and it stays there. One is
/// seen if one was seen before.
#[verifier::external_body]
fn peek_command(rx: &rtrb::Consumer<Command>) -> (r: Option<Command>)
    ensures
        r matches Some(command) ==> command == commands_through_receiver(*rx)[commands_taken(
            *rx,
        ) as int],
        waiting_commands(*rx) > 0 ==> r is Some,
{
    rx.peek().ok().copied()
}

/// Those of some commands that found room, where `accepted` says which ones did.
pub open spec fn accepted_of(commands: Seq<Command>, accepted: Seq<bool>) -> Seq<Command>
    decreases commands.len(),
{
    if commands.len() == 0 {
        Seq::empty()
    } else if accepted[commands.len() - 1] {
        accepted_of(commands.drop_last(), accepted).push(commands.last())
    } else {
        accepted_of(commands.drop_last(), accepted)
    }
}

/// Whether every command of a list was offered to the queue, each once and in order: those that
/// found room have been sent, as many as were certain to find it among them, and `sent` says whether
/// all of them did. A queue with room for the whole list takes all of it.
pub open spec fn all_offered(
    before: CommandSender,
    after: CommandSender,
    commands: Seq<Command>,
    sent: bool,
) -> bool {
    &&& exists|accepted: Seq<bool>|
        {
            &&& accepted.len() == commands.len()
            &&& after.sent() == before.sent() + #[trigger] accepted_of(commands, accepted)
            &&& sent == !accepted.contains(false)
            &&& queue::as_room_allows(accepted, before.room(), after.room())
        }
    &&& after.offered() == before.offered() + commands
    &&& room_used(before, after, commands.len(), sent)
}

/// Whether `n` commands were offered to a queue as its room demands: it stays the same queue, and
/// where all of them are certain to be accepted, they were.
pub open spec fn room_used(
    before: CommandSender,
    after: CommandSender,
    n: nat,
    accepted: bool,
) -> bool {
    &&& after.queue() == before.queue()
    &&& before.room() >= n ==> accepted && after.room() == before.room() - n
}

/// Control thread -> audio thread.
pub struct CommandSender {
    tx: rtrb::Producer<Command>,
    offered: Ghost<Seq<Command>>,
}

impl CommandSender {
    /// The commands that were accepted so far, oldest first.
    pub open spec fn sent(self) -> Seq<Command> {
        queue::first_of(self.queue(), self.count())
    }

    /// The commands that were offered so far, oldest first, whether they were accepted or not.
    pub closed spec fn offered(self) -> Seq<Command> {
        self.offered@
    }

    /// How many commands were accepted so far.
    pub closed spec fn count(self) -> nat {
        commands_sent(self.tx)
    }

    /// Everything that goes through the queue behind this end.
    pub closed spec fn queue(self) -> Map<int, Command> {
        commands_through_sender(self.tx)
    }

    /// How many more commands are certain to be accepted.
    pub closed spec fn room(self) -> nat {
        free_for_commands(self.tx)
    }

    /// Fails only if the queue is full, which means the audio thread stopped consuming.
    pub fn send(&mut self, cmd: Command) -> (r: Result<(), String>)
        ensures
            final(self).queue() == old(self).queue(),
            r is Ok ==> final(self).sent() == old(self).sent().push(cmd),
            r matches Err(text) ==> final(self).sent() == old(self).sent() && text@
                == "Kommando-Queue ist voll - der Audio-Thread holt nichts mehr ab."@,
            old(self).room() > 0 ==> r is Ok && final(self).room() == old(self).room() - 1,
            r is Err ==> final(self).room() == 0,
            final(self).offered() == old(self).offered().push(cmd),
    {
        proof {
            queue::lemma_next(self.queue(), self.count());
        }
        self.offered = Ghost(self.offered@.push(cmd));
        if push_command(&mut self.tx, cmd) {
            Ok(())
        } else {
            Err("Kommando-Queue ist voll - der Audio-Thread holt nichts mehr ab.".to_owned())
        }
    }
}

/// Audio thread side of the command queue.
pub struct CommandReceiver {
    rx: rtrb::Consumer<Command>,
}

impl CommandReceiver {
    /// The command that comes out next, once there is one.
    pub open spec fn upcoming(self) -> Command {
        self.queue()[self.taken().len() as int]
    }

    /// Everything that goes through the queue behind this end.
    pub closed spec fn queue(self) -> Map<int, Command> {
        commands_through_receiver(self.rx)
    }

    /// How many commands came out so far.
    pub closed spec fn count(self) -> nat {
        commands_taken(self.rx)
    }

    /// How many commands are known to be in the queue.
    pub closed spec fn waiting(self) -> nat {
        waiting_commands(self.rx)
    }

    /// The commands that came out so far, oldest first.
    pub open spec fn taken(self) -> Seq<Command> {
        queue::first_of(self.queue(), self.count())
    }

    /// Look at the next command without removing it. Callback-safe.
    pub fn peek(&self) -> (r: Option<Command>)
        ensures
            r matches Some(command) ==> command == self.upcoming(),
            self.waiting() > 0 ==> r is Some,
    {
        peek_command(&self.rx)
    }

    pub fn pop(&mut self) -> (r: Option<Command>)
        ensures
            final(self).queue() == old(self).queue(),
            r matches Some(command) ==> command == old(self).upcoming(),
            r is None ==> final(self).upcoming() == old(self).upcoming(),
            old(self).waiting() > 0 ==> r is Some && final(self).waiting() == old(self).waiting()
                - 1,
            r is None ==> final(self).waiting() == 0,
            final(self).taken() == (match r {
                Some(command) => old(self).taken().push(command),
                None => old(self).taken(),
            }),
    {
        proof {
            queue::lemma_next(self.queue(), self.count());
        }
        pop_command(&mut self.rx)
    }
}

/// A queue for at most `capacity` commands.
pub fn command_channel(capacity: usize) -> (r: (CommandSender, CommandReceiver))
    requires
        capacity <= 0x4_0000,
    ensures
        r.0.queue() == r.1.queue(),
        r.0.sent() == Seq::<Command>::empty(),
        r.0.offered() == Seq::<Command>::empty(),
        r.0.room() == capacity,
        r.1.taken() == Seq::<Command>::empty(),
{
    let (tx, rx) = command_ring(capacity);
    (CommandSender { tx, offered: Ghost(Seq::empty()) }, CommandReceiver { rx })
}

/// Everything that goes through the queue behind a sending end, numbered in the order it is put in:
/// the snapshots that were, and those that will be.
pub uninterp spec fn statuses_through_sender(tx: rtrb::Producer<Status>) -> Map<int, Status>;

/// Everything that goes through the queue behind a receiving end, numbered in the order it comes
/// out.
pub uninterp spec fn statuses_through_receiver(rx: rtrb::Consumer<Status>) -> Map<int, Status>;

/// How many snapshots were put into the queue so far.
pub uninterp spec fn statuses_sent(tx: rtrb::Producer<Status>) -> nat;

/// How many snapshots were taken out of the queue so far.
pub uninterp spec fn statuses_taken(rx: rtrb::Consumer<Status>) -> nat;

/// How many slots the sending end has seen free and not used since. The receiving thread can only
/// free more of them.
pub uninterp spec fn free_for_statuses(tx: rtrb::Producer<Status>) -> nat;

/// How many snapshots the receiving end has seen in the queue and not taken out since. The sending
/// thread can only add to them.
pub uninterp spec fn waiting_statuses(rx: rtrb::Consumer<Status>) -> nat;

/// `rtrb::RingBuffer::new` for snapshots: what the one end is given is what the other end gets, every
/// slot is free, and nothing has been sent or taken yet. The bound keeps the memory for the slots
/// below what can be allocated.
#[verifier::external_body]
fn status_ring(capacity: usize) -> (r: (rtrb::Producer<Status>, rtrb::Consumer<Status>))
    requires
        capacity <= 0x4_0000,
    ensures
        statuses_through_sender(r.0) == statuses_through_receiver(r.1),
        statuses_sent(r.0) == 0,
        statuses_taken(r.1) == 0,
        free_for_statuses(r.0) == capacity,
{
    rtrb::RingBuffer::new(capacity)
}

/// `rtrb::Consumer::pop` for a snapshot: what comes out is the next snapshot of the queue. There is one
/// if one was seen in the queue; nothing comes out only if a look at the queue has just shown it
/// empty.
#[verifier::external_body]
fn pop_status(rx: &mut rtrb::Consumer<Status>) -> (r: Option<Status>)
    ensures
        statuses_through_receiver(*final(rx)) == statuses_through_receiver(*old(rx)),
        waiting_statuses(*old(rx)) > 0 ==> r is Some && waiting_statuses(*final(rx)) == waiting_statuses(
            *old(rx),
        ) - 1,
        r matches Some(status) ==> statuses_taken(*final(rx)) == statuses_taken(*old(rx)) + 1
            && statuses_through_receiver(*old(rx))[statuses_taken(*old(rx)) as int] == status,
        r is None ==> statuses_taken(*final(rx)) == statuses_taken(*old(rx)) && waiting_statuses(
            *final(rx),
        ) == 0,
{
    rx.pop().ok()
}

/// `rtrb::Producer::push` for a snapshot: it is accepted if a slot was seen free, and then it is the
/// next snapshot of the queue. It is refused only if a look at the queue has just shown no free slot.
#[verifier::external_body]
fn push_status(tx: &mut rtrb::Producer<Status>, status: Status) -> (accepted: bool)
    ensures
        statuses_through_sender(*final(tx)) == statuses_through_sender(*old(tx)),
        free_for_statuses(*old(tx)) > 0 ==> accepted && free_for_statuses(*final(tx))
            == free_for_statuses(*old(tx)) - 1,
        accepted ==> statuses_sent(*final(tx)) == statuses_sent(*old(tx)) + 1
            && statuses_through_sender(*old(tx))[statuses_sent(*old(tx)) as int] == status,
        !accepted ==> statuses_sent(*final(tx)) == statuses_sent(*old(tx)) && free_for_statuses(
            *final(tx),
        ) == 0,
{
    tx.push(status).is_ok()
}

/// Whether a queue was emptied: of the values known to be waiting, and of what was found behind
/// them, everything came out until a look showed nothing more. Nobody counts further than `u64`.
pub open spec fn emptied(came_out: int, known: nat, left: nat) -> bool {
    &&& 0 <= came_out
    &&& came_out < u64::MAX ==> left == 0 && came_out >= known
}

/// Audio thread -> control thread.
pub struct StatusSender {
    tx: rtrb::Producer<Status>,
    offered: Ghost<Seq<Status>>,
}

impl StatusSender {
    /// The snapshots that were offered so far, oldest first, whether they found room or not.
    pub closed spec fn offered(self) -> Seq<Status> {
        self.offered@
    }

    /// Everything that goes through the queue behind this end.
    pub closed spec fn queue(self) -> Map<int, Status> {
        statuses_through_sender(self.tx)
    }

    /// How many snapshots found room so far.
    pub closed spec fn count(self) -> nat {
        statuses_sent(self.tx)
    }

    /// The snapshots that found room so far, oldest first.
    pub open spec fn sent(self) -> Seq<Status> {
        queue::first_of(self.queue(), self.count())
    }

    /// How many more snapshots are certain to find room.
    pub closed spec fn room(self) -> nat {
        free_for_statuses(self.tx)
    }

    /// Dropping the update when the queue is full is the right behaviour here: status is a
    /// snapshot, and the audio thread must never wait for the display.
    pub fn push(&mut self, status: Status)
        ensures
            final(self).offered() == old(self).offered().push(status),
            final(self).queue() == old(self).queue(),
            old(self).room() > 0 ==> final(self).room() == old(self).room() - 1
                && final(self).sent() == old(self).sent().push(status),
            final(self).sent() == old(self).sent().push(status) || (final(self).sent()
                == old(self).sent() && final(self).room() == 0),
    {
        proof {
            queue::lemma_next(self.queue(), self.count());
        }
        let _ = push_status(&mut self.tx, status);
        self.offered = Ghost(self.offered@.push(status));
    }
}

/// Control thread side of the status queue.
pub struct StatusReceiver {
    rx: rtrb::Consumer<Status>,
}

impl StatusReceiver {
    /// Everything that goes through the queue behind this end.
    pub closed spec fn queue(self) -> Map<int, Status> {
        statuses_through_receiver(self.rx)
    }

    /// How many snapshots came out so far.
    pub closed spec fn count(self) -> nat {
        statuses_taken(self.rx)
    }

    /// The snapshots that came out so far, oldest first.
    pub open spec fn seen(self) -> Seq<Status> {
        queue::first_of(self.queue(), self.count())
    }

    /// How many snapshots are known to be in the queue.
    pub closed spec fn waiting(self) -> nat {
        waiting_statuses(self.rx)
    }

    /// Newest status in the queue, discarding everything older.
    pub fn latest(&mut self) -> (r: Option<Status>)
        ensures
            final(self).queue() == old(self).queue(),
            old(self).seen().is_prefix_of(final(self).seen()),
            r == (if final(self).seen().len() > old(self).seen().len() {
                Some(final(self).seen().last())
            } else {
                None
            }),
            emptied(
                final(self).seen().len() - old(self).seen().len(),
                old(self).waiting(),
                final(self).waiting(),
            ),
    {
        let mut last: Option<Status> = None;
        let mut left: u64 = u64::MAX;
        let ghost before = self.seen();
        while left > 0
            invariant
                self.queue() == old(self).queue(),
                before == old(self).seen(),
                before.is_prefix_of(self.seen()),
                self.seen().len() == before.len() + u64::MAX - left,
                self.seen().len() - before.len() + self.waiting() >= old(self).waiting(),
                last == (if self.seen().len() > before.len() {
                    Some(self.seen().last())
                } else {
                    None
                }),
            decreases left,
        {
            proof {
                queue::lemma_next(self.queue(), self.count());
            }
            match pop_status(&mut self.rx) {
                Some(status) => {
                    assert(before.is_prefix_of(self.seen()));
                    last = Some(status);
                },
                None => {
                    return last;
                },
            }
            left = left - 1;
        }
        last
    }
}

/// A queue for at most `capacity` snapshots.
pub fn status_channel(capacity: usize) -> (r: (StatusSender, StatusReceiver))
    requires
        capacity <= 0x4_0000,
    ensures
        r.0.queue() == r.1.queue(),
        r.0.offered() == Seq::<Status>::empty(),
        r.0.sent() == Seq::<Status>::empty(),
        r.0.room() == capacity,
        r.1.seen() == Seq::<Status>::empty(),
{
    let (tx, rx) = status_ring(capacity);
    (StatusSender { tx, offered: Ghost(Seq::empty()) }, StatusReceiver { rx })
}

/// Everything that goes through the queue behind a sending end, numbered in the order it is put in:
/// the buffers that were, and those that will be.
pub uninterp spec fn buffers_through_sender(tx: rtrb::Producer<Vec<u32>>) -> Map<int, Seq<u32>>;

/// Everything that goes through the queue behind a receiving end, numbered in the order it comes
/// out.
pub uninterp spec fn buffers_through_receiver(rx: rtrb::Consumer<Vec<u32>>) -> Map<int, Seq<u32>>;

/// How many buffers were put into the queue so far.
pub uninterp spec fn buffers_sent(tx: rtrb::Producer<Vec<u32>>) -> nat;

/// How many buffers were taken out of the queue so far.
pub uninterp spec fn buffers_taken(rx: rtrb::Consumer<Vec<u32>>) -> nat;

/// How many slots the sending end has seen free and not used since. The receiving thread can only
/// free more of them.
pub uninterp spec fn free_for_buffers(tx: rtrb::Producer<Vec<u32>>) -> nat;

/// How many buffers the receiving end has seen in the queue and not taken out since. The sending
/// thread can only add to them.
pub uninterp spec fn waiting_buffers(rx: rtrb::Consumer<Vec<u32>>) -> nat;

/// `rtrb::RingBuffer::new` for buffers: what the one end is given is what the other end gets, every
/// slot is free, and nothing has been sent or taken yet. The bound keeps the memory for the slots
/// below what can be allocated.
#[verifier::external_body]
fn buffer_ring(capacity: usize) -> (r: (rtrb::Producer<Vec<u32>>, rtrb::Consumer<Vec<u32>>))
    requires
        capacity <= 0x4_0000,
    ensures
        buffers_through_sender(r.0) == buffers_through_receiver(r.1),
        buffers_sent(r.0) == 0,
        buffers_taken(r.1) == 0,
        free_for_buffers(r.0) == capacity,
{
    rtrb::RingBuffer::new(capacity)
}

/// `rtrb::Consumer::pop` for a buffer: what comes out is the next buffer of the queue. There is one
/// if one was seen in the queue; nothing comes out only if a look at the queue has just shown it
/// empty.
#[verifier::external_body]
fn pop_buffer(rx: &mut rtrb::Consumer<Vec<u32>>) -> (r: Option<Vec<u32>>)
    ensures
        buffers_through_receiver(*final(rx)) == buffers_through_receiver(*old(rx)),
        waiting_buffers(*old(rx)) > 0 ==> r is Some && waiting_buffers(*final(rx)) == waiting_buffers(
            *old(rx),
        ) - 1,
        r matches Some(buffer) ==> buffers_taken(*final(rx)) == buffers_taken(*old(rx)) + 1
            && buffers_through_receiver(*old(rx))[buffers_taken(*old(rx)) as int] == buffer@,
        r is None ==> buffers_taken(*final(rx)) == buffers_taken(*old(rx)) && waiting_buffers(
            *final(rx),
        ) == 0,
{
    rx.pop().ok()
}

/// `rtrb::Producer::push` for a buffer: it is accepted if a slot was seen free, and then it is the
/// next buffer of the queue. It is refused only if a look at the queue has just shown no free slot,
/// and then it comes back as it was.
#[verifier::external_body]
fn push_buffer(tx: &mut rtrb::Producer<Vec<u32>>, buffer: Vec<u32>) -> (r: Result<(), Vec<u32>>)
    ensures
        buffers_through_sender(*final(tx)) == buffers_through_sender(*old(tx)),
        free_for_buffers(*old(tx)) > 0 ==> r is Ok && free_for_buffers(*final(tx))
            == free_for_buffers(*old(tx)) - 1,
        r is Ok ==> buffers_sent(*final(tx)) == buffers_sent(*old(tx)) + 1
            && buffers_through_sender(*old(tx))[buffers_sent(*old(tx)) as int] == buffer@,
        r matches Err(back) ==> back == buffer && buffers_sent(*final(tx)) == buffers_sent(*old(tx))
            && free_for_buffers(*final(tx)) == 0,
{
    match tx.push(buffer) {
        Ok(()) => Ok(()),
        Err(rtrb::PushError::Full(back)) => Err(back),
    }
}

/// `std::mem::forget`: the buffer is not freed.
#[verifier::external_body]
fn forget(buffer: Vec<u32>) {
    std::mem::forget(buffer)
}

/// Control-thread side of the hand-over of loop buffers.
///
/// `install` carries a freshly allocated buffer to the audio thread, and a retired one comes back so
/// it is dropped where dropping is allowed. Both directions have the same capacity, so a buffer that
/// was accepted can always be returned.
pub struct BufferChannel {
    install_tx: rtrb::Producer<Vec<u32>>,
    retire_rx: rtrb::Consumer<Vec<u32>>,
}

/// Audio-thread side of the hand-over of loop buffers.
pub struct BufferEndpoint {
    install_rx: rtrb::Consumer<Vec<u32>>,
    retire_tx: rtrb::Producer<Vec<u32>>,
    left: Ghost<Seq<Seq<u32>>>,
}

impl BufferChannel {
    /// What goes through the queue to the audio thread.
    pub closed spec fn queue(self) -> Map<int, Seq<u32>> {
        buffers_through_sender(self.install_tx)
    }

    /// What goes through the queue back.
    pub closed spec fn return_queue(self) -> Map<int, Seq<u32>> {
        buffers_through_receiver(self.retire_rx)
    }

    /// How many buffers were handed over so far.
    pub closed spec fn count(self) -> nat {
        buffers_sent(self.install_tx)
    }

    /// The buffers that were handed over so far, oldest first.
    pub open spec fn installed(self) -> Seq<Seq<u32>> {
        queue::first_of(self.queue(), self.count())
    }

    /// How many more buffers are certain to be accepted.
    pub closed spec fn room(self) -> nat {
        free_for_buffers(self.install_tx)
    }

    /// How many buffers came back and were taken out so far.
    pub closed spec fn back_count(self) -> nat {
        buffers_taken(self.retire_rx)
    }

    /// What the buffers held that came back and were taken out so far, oldest first.
    pub open spec fn came_back(self) -> Seq<Seq<u32>> {
        queue::first_of(self.return_queue(), self.back_count())
    }

    /// How many buffers are known to have come back.
    pub closed spec fn waiting(self) -> nat {
        waiting_buffers(self.retire_rx)
    }

    /// Hand a new loop buffer over and drop whatever came back.
    pub fn install(&mut self, buffer: Vec<u32>) -> (r: Result<(), String>)
        ensures
            drained(*old(self), *final(self)),
            final(self).queue() == old(self).queue(),
            r is Ok ==> final(self).installed() == old(self).installed().push(buffer@),
            r matches Err(text) ==> final(self).installed() == old(self).installed() && text@
                == "Puffer-Queue ist voll."@,
            old(self).room() > 0 ==> r is Ok && final(self).room() == old(self).room() - 1,
            r is Err ==> final(self).room() == 0,
    {
        self.drain_retired();
        proof {
            queue::lemma_next(self.queue(), self.count());
        }
        match push_buffer(&mut self.install_tx, buffer) {
            Ok(()) => Ok(()),
            Err(_) => Err("Puffer-Queue ist voll.".to_owned()),
        }
    }

    /// One buffer that came back, with whatever was recorded into it, or None when none has.
    pub fn take_retired(&mut self) -> (r: Option<Vec<u32>>)
        ensures
            fetched_back(*old(self), *final(self), r),
    {
        proof {
            queue::lemma_next(self.return_queue(), self.back_count());
        }
        pop_buffer(&mut self.retire_rx)
    }

    /// Drop the buffers that came back. Dropping happens here, in the control thread, never in the
    /// callback.
    pub fn drain_retired(&mut self)
        ensures
            final(self).queue() == old(self).queue(),
            final(self).installed() == old(self).installed(),
            final(self).room() == old(self).room(),
            drained(*old(self), *final(self)),
    {
        let mut left: u64 = u64::MAX;
        let ghost before = self.came_back();
        while left > 0
            invariant
                self.queue() == old(self).queue(),
                self.installed() == old(self).installed(),
                self.room() == old(self).room(),
                self.return_queue() == old(self).return_queue(),
                before == old(self).came_back(),
                before.is_prefix_of(self.came_back()),
                self.came_back().len() == before.len() + u64::MAX - left,
                self.came_back().len() - before.len() + self.waiting() >= old(self).waiting(),
            decreases left,
        {
            proof {
                queue::lemma_next(self.return_queue(), self.back_count());
            }
            if pop_buffer(&mut self.retire_rx).is_none() {
                return;
            }
            assert(before.is_prefix_of(self.came_back()));
            left = left - 1;
        }
    }
}

/// Whether everything that had come back was taken out of the queue.
pub open spec fn drained(before: BufferChannel, after: BufferChannel) -> bool {
    &&& after.return_queue() == before.return_queue()
    &&& before.came_back().is_prefix_of(after.came_back())
    &&& emptied(
        after.came_back().len() - before.came_back().len(),
        before.waiting(),
        after.waiting(),
    )
}

/// Whether the queue was asked for one buffer that came back: there is one where one was known to be
/// there, and none only if a look at the queue has just shown it empty.
pub open spec fn fetched_back(
    before: BufferChannel,
    after: BufferChannel,
    r: Option<Vec<u32>>,
) -> bool {
    &&& after.queue() == before.queue()
    &&& after.installed() == before.installed()
    &&& after.room() == before.room()
    &&& after.return_queue() == before.return_queue()
    &&& after.came_back() == (match r {
        Some(buffer) => before.came_back().push(buffer@),
        None => before.came_back(),
    })
    &&& before.waiting() > 0 ==> r is Some && after.waiting() == before.waiting() - 1
    &&& r is None ==> after.waiting() == 0
}

/// Whether buffers were sent back one after the other: as many as were certain to find room are in
/// the queue behind those before, in order, and where that is all of them, the room has shrunk by
/// their number.
pub open spec fn sent_back(before: BufferEndpoint, after: BufferEndpoint) -> bool {
    let left = after.returned().skip(before.returned().len() as int);
    &&& before.returned().is_prefix_of(after.returned())
    &&& before.given_back().is_prefix_of(after.given_back())
    &&& left.len() <= before.room() ==> after.given_back() == before.given_back() + left
        && after.room() == before.room() - left.len()
    &&& left.len() > before.room() ==> (before.given_back() + left.take(
        before.room() as int,
    )).is_prefix_of(after.given_back())
}

/// What was not touched sent nothing back.
pub(crate) broadcast proof fn lemma_nothing_sent_back(end: BufferEndpoint)
    ensures
        #[trigger] sent_back(end, end),
{
    let left = end.returned().skip(end.returned().len() as int);
    assert(end.given_back() + left =~= end.given_back());
}

/// Sending back and sending back again is sending back.
pub(crate) broadcast proof fn lemma_sent_back_again(
    a: BufferEndpoint,
    b: BufferEndpoint,
    c: BufferEndpoint,
)
    requires
        #[trigger] sent_back(a, b),
        #[trigger] sent_back(b, c),
    ensures
        sent_back(a, c),
{
    let n = a.returned().len() as int;
    let m = b.returned().len() as int;
    let first = b.returned().skip(n);
    let second = c.returned().skip(m);
    let left = c.returned().skip(n);
    assert(left =~= first + second) by {
        assert forall|i: int| 0 <= i < left.len() implies left[i] == (first + second)[i] by {
            if i < first.len() {
                assert(b.returned()[n + i] == c.returned()[n + i]);
            }
        }
    }
    let room = a.room() as int;
    if left.len() <= room {
        assert((a.given_back() + first) + second =~= a.given_back() + left);
    } else if first.len() <= room {
        let rest = second.take(room - first.len());
        assert((a.given_back() + first) + rest =~= a.given_back() + left.take(room));
    } else {
        assert(first.take(room) =~= left.take(room));
    }
}

impl BufferEndpoint {
    /// What goes through the queue to the audio thread.
    pub closed spec fn queue(self) -> Map<int, Seq<u32>> {
        buffers_through_receiver(self.install_rx)
    }

    /// What goes through the queue back.
    pub closed spec fn return_queue(self) -> Map<int, Seq<u32>> {
        buffers_through_sender(self.retire_tx)
    }

    /// How many buffers came in through this end.
    pub closed spec fn received(self) -> nat {
        buffers_taken(self.install_rx)
    }

    /// What the buffers held that came in through this end, oldest first.
    pub open spec fn taken(self) -> Seq<Seq<u32>> {
        queue::first_of(self.queue(), self.received())
    }

    /// How many buffers are known to be on their way in.
    pub closed spec fn waiting(self) -> nat {
        waiting_buffers(self.install_rx)
    }

    /// How many buffers went back into the queue.
    pub closed spec fn back_count(self) -> nat {
        buffers_sent(self.retire_tx)
    }

    /// What the buffers held that went back into the queue, oldest first.
    pub open spec fn given_back(self) -> Seq<Seq<u32>> {
        queue::first_of(self.return_queue(), self.back_count())
    }

    /// What the buffers held that were sent back, oldest first, whether they found room or not.
    pub closed spec fn returned(self) -> Seq<Seq<u32>> {
        self.left@
    }

    /// How many more buffers are certain to find room on their way back.
    pub closed spec fn room(self) -> nat {
        free_for_buffers(self.retire_tx)
    }

    /// Take a new buffer if one is waiting.
    pub fn take_new(&mut self) -> (r: Option<Vec<u32>>)
        ensures
            final(self).queue() == old(self).queue(),
            final(self).return_queue() == old(self).return_queue(),
            final(self).given_back() == old(self).given_back(),
            final(self).room() == old(self).room(),
            final(self).returned() == old(self).returned(),
            final(self).taken() == (match r {
                Some(buffer) => old(self).taken().push(buffer@),
                None => old(self).taken(),
            }),
            old(self).waiting() > 0 ==> r is Some && final(self).waiting() == old(self).waiting()
                - 1,
            r is None ==> final(self).waiting() == 0,
            sent_back(*old(self), *final(self)),
    {
        proof {
            queue::lemma_next(self.queue(), self.received());
            lemma_nothing_sent_back(*self);
        }
        pop_buffer(&mut self.install_rx)
    }

    /// Send a retired buffer back to the control thread.
    ///
    /// If the return queue is unexpectedly full, the buffer is leaked rather than dropped: a
    /// deallocation inside the audio callback can block, a leaked buffer cannot.
    pub fn retire(&mut self, buffer: Vec<u32>)
        ensures
            final(self).queue() == old(self).queue(),
            final(self).return_queue() == old(self).return_queue(),
            final(self).taken() == old(self).taken(),
            final(self).waiting() == old(self).waiting(),
            final(self).returned() == old(self).returned().push(buffer@),
            old(self).room() > 0 ==> final(self).room() == old(self).room() - 1
                && final(self).given_back() == old(self).given_back().push(buffer@),
            final(self).given_back() == old(self).given_back().push(buffer@)
                || (final(self).given_back() == old(self).given_back() && final(self).room() == 0),
            sent_back(*old(self), *final(self)),
    {
        proof {
            queue::lemma_next(self.return_queue(), self.back_count());
        }
        let ghost content = buffer@;
        self.left = Ghost(self.left@.push(buffer@));
        match push_buffer(&mut self.retire_tx, buffer) {
            Ok(()) => {},
            Err(back) => {
                forget(back);
            },
        }
        proof {
            let left = self.returned().skip(old(self).returned().len() as int);
            assert(left =~= seq![content]);
            assert(old(self).given_back() + left =~= old(self).given_back().push(content));
            assert(old(self).given_back() + left.take(0) =~= old(self).given_back());
        }
    }
}

/// The two ends of a hand-over with room for `capacity` buffers in each direction.
pub fn buffer_channel(capacity: usize) -> (r: (BufferChannel, BufferEndpoint))
    requires
        capacity <= 0x4_0000,
    ensures
        r.0.queue() == r.1.queue(),
        r.0.return_queue() == r.1.return_queue(),
        r.0.installed() == Seq::<Seq<u32>>::empty(),
        r.0.came_back() == Seq::<Seq<u32>>::empty(),
        r.0.room() == capacity,
        r.1.taken() == Seq::<Seq<u32>>::empty(),
        r.1.received() == 0,
        r.1.given_back() == Seq::<Seq<u32>>::empty(),
        r.1.room() == capacity,
        r.1.returned() == Seq::<Seq<u32>>::empty(),
{
    let (install_tx, install_rx) = buffer_ring(capacity);
    let (retire_tx, retire_rx) = buffer_ring(capacity);
    (
        BufferChannel { install_tx, retire_rx },
        BufferEndpoint { install_rx, retire_tx, left: Ghost(Seq::empty()) },
    )
}

// ---------------------------------------------------------------------------------------------
// Laws
// ---------------------------------------------------------------------------------------------

/// A command that addresses a track is timed exactly if it moves that track's transport.
pub proof fn a_stop_and_a_switch_carry_no_time(command: Command)
    ensures
        command.time() is None <==> !(command is StartRecord || command is StartOverdub
            || command is StopRecord || command is StartPlay || command is StopPlay
            || command is ClearTrack || command is ClearAll),
{
}

/// A negative surcharge can bring the compensation down to nothing but never below.
pub proof fn a_compensation_is_never_negative(latency: TrackLatency, global: int)
    requires
        global >= 0,
    ensures
        latency.resolved(global) >= 0,
        latency == (TrackLatency { measured: None, trim: 0 }) ==> latency.resolved(global)
            == global,
{
}

/// Whether two histories of one queue tell of the same values in the same order, as far as both go.
pub open spec fn agree<T>(given: Seq<T>, got: Seq<T>) -> bool {
    forall|i: int| 0 <= i < given.len() && i < got.len() ==> #[trigger] got[i] == given[i]
}

/// What the control thread sends is what the audio thread gets, command for command and in that
/// order.
pub proof fn commands_arrive_in_order(tx: CommandSender, rx: CommandReceiver)
    requires
        tx.queue() == rx.queue(),
    ensures
        agree(tx.sent(), rx.taken()),
        rx.taken().len() <= tx.sent().len() ==> rx.taken().is_prefix_of(tx.sent()),
        rx.taken().len() < tx.sent().len() ==> rx.upcoming() == tx.sent()[rx.taken().len() as int],
{
}

/// The snapshots that found room arrive in the order they were pushed.
pub proof fn snapshots_arrive_in_order(tx: StatusSender, rx: StatusReceiver)
    requires
        tx.queue() == rx.queue(),
    ensures
        agree(tx.sent(), rx.seen()),
        rx.seen().len() <= tx.sent().len() ==> rx.seen().is_prefix_of(tx.sent()),
{
}

/// Buffers travel both ways: what is installed is what the audio thread takes, and what it gives back
/// is what comes back, each with what it holds and in the order it was handed over.
pub proof fn buffers_travel_in_order(control: BufferChannel, audio: BufferEndpoint)
    requires
        control.queue() == audio.queue(),
        control.return_queue() == audio.return_queue(),
    ensures
        agree(control.installed(), audio.taken()),
        audio.taken().len() <= control.installed().len() ==> audio.taken().is_prefix_of(
            control.installed(),
        ),
        agree(audio.given_back(), control.came_back()),
        control.came_back().len() <= audio.given_back().len() ==> control.came_back().is_prefix_of(
            audio.given_back(),
        ),
{
}

/// The compensation of a track is its own measurement, or the engine's value where it has none, and
/// the surcharge on top; below zero it is zero.
pub proof fn a_compensation_is_a_measurement_and_a_surcharge(
    latency: TrackLatency,
    global: int,
    frames: u32,
)
    ensures
        latency.measured == Some(frames) && frames + latency.trim >= 0 ==> latency.resolved(global)
            == frames + latency.trim,
        latency.measured == Some(frames) && frames + latency.trim < 0 ==> latency.resolved(global)
            == 0,
        latency.measured is None && global + latency.trim >= 0 ==> latency.resolved(global)
            == global + latency.trim,
        latency.measured is None && global + latency.trim < 0 ==> latency.resolved(global) == 0,
{
}

/// What a musician does on the timeline is due at the position it names.
pub proof fn a_musical_command_is_due_at_its_position(cmd: Command, track: usize, at: u64)
    ensures
        cmd == (Command::StartRecord { track, at }) || cmd == (Command::StartOverdub { track, at })
            || cmd == (Command::StopRecord { track, at }) || cmd == (Command::StartPlay {
            track,
            at,
        }) || cmd == (Command::StopPlay { track, at }) || cmd == (Command::ClearTrack { track, at })
            ==> cmd.time() == Some(at) && cmd.due() == at && cmd.target() == Some(track),
        cmd == (Command::ClearAll { at }) ==> cmd.time() == Some(at) && cmd.due() == at
            && cmd.target() is None,
        cmd.time() is None ==> cmd.due() == 0,
{
}

/// What is set on a track is set on the track it names, and what is set on the engine names none.
pub proof fn a_setting_names_its_track(cmd: Command)
    ensures
        cmd matches Command::SetMonitor { track, .. } ==> cmd.target() == Some(track),
        cmd matches Command::SetLayerMute { track, .. } ==> cmd.target() == Some(track),
        cmd matches Command::SetLayerGain { track, .. } ==> cmd.target() == Some(track),
        cmd matches Command::RemoveLayer { track, .. } ==> cmd.target() == Some(track),
        cmd matches Command::SetPan { track, .. } ==> cmd.target() == Some(track),
        cmd matches Command::SetTrackSend { track, .. } ==> cmd.target() == Some(track),
        cmd matches Command::SetTrackLatency { track, .. } ==> cmd.target() == Some(track),
        cmd matches Command::SetFxBypass { track, .. } ==> cmd.target() == Some(track),
        cmd matches Command::SetFxEnabled { track, .. } ==> cmd.target() == Some(track),
        cmd matches Command::SetFxParam { track, .. } ==> cmd.target() == Some(track),
        cmd matches Command::LoadFxPreset { track, .. } ==> cmd.target() == Some(track),
        cmd is SetBusGain || cmd is SetBusOutput || cmd is SetClick || cmd is SetTempo
            || cmd is Stop ==> cmd.target() is None,
{
}

/// Every refusal has a sentence of its own, and where nothing was refused there is none.
pub proof fn refusals_are_told_apart(a: Refusal, b: Refusal)
    ensures
        refusal_message(a) is None <==> a == Refusal::Nothing,
        refusal_message(a) == refusal_message(b) ==> a == b,
{
    reveal_strlit("Unbekanntes Ziel.");
    reveal_strlit("Track ist beschaeftigt.");
    reveal_strlit("Mehr Ebenen fasst der Track nicht.");
    reveal_strlit("Kein vorbereiteter Puffer da.");
    reveal_strlit("Tempo abgelehnt.");
    assert("Unbekanntes Ziel."@.len() == 17);
    assert("Track ist beschaeftigt."@.len() == 23);
    assert("Mehr Ebenen fasst der Track nicht."@.len() == 34);
    assert("Kein vorbereiteter Puffer da."@.len() == 29);
    assert("Tempo abgelehnt."@.len() == 16);
}

/// Every state of a track has a word of its own.
pub proof fn states_are_told_apart(a: TrackState, b: TrackState)
    ensures
        state_label(a) == state_label(b) ==> a == b,
{
    reveal_strlit("leer");
    reveal_strlit("scharf");
    reveal_strlit("Aufnahme");
    reveal_strlit("Overdub");
    reveal_strlit("bereit");
    reveal_strlit("Wiedergabe");
    assert("leer"@.len() == 4);
    assert("scharf"@.len() == 6);
    assert("Aufnahme"@.len() == 8);
    assert("Overdub"@.len() == 7);
    assert("bereit"@.len() == 6);
    assert("Wiedergabe"@.len() == 10);
    assert("scharf"@[0] != "bereit"@[0]);
}

/// A snapshot shows as many tracks as it counts, in order, and never more than there is room for.
pub proof fn a_snapshot_shows_the_tracks_it_counts(status: Status, t: int)
    requires
        0 <= t < status.shown().len(),
    ensures
        status.track_count <= 8 ==> status.shown().len() == status.track_count,
        status.shown().len() <= 8,
        status.shown()[t] == status.tracks@[t],
{
}

/// Of a list of commands those are sent that found room, in the order they were offered: all of them
/// where all did, none where none did.
pub proof fn accepted_commands_keep_their_order(
    commands: Seq<Command>,
    accepted: Seq<bool>,
    all: bool,
)
    requires
        accepted.len() >= commands.len(),
        forall|i: int| 0 <= i < commands.len() ==> #[trigger] accepted[i] == all,
    ensures
        accepted_of(commands, accepted) == (if all {
            commands
        } else {
            Seq::<Command>::empty()
        }),
    decreases commands.len(),
{
    if commands.len() > 0 {
        accepted_commands_keep_their_order(commands.drop_last(), accepted, all);
        assert(accepted[commands.len() - 1] == all);
        assert(commands.drop_last().push(commands.last()) =~= commands);
    }
}

/// A track that nothing has been done to shows no take, plays nothing, lets nothing through and has a
/// chain that does nothing.
pub proof fn an_untouched_track_is_silent(ts: TrackStatus)
    requires
        ts.fresh(),
    ensures
        ts.state == TrackState::Empty,
        ts.layers == 0 && ts.muted_mask == 0,
        ts.loop_len == 0 && ts.origin == 0 && ts.filled == 0,
        !ts.playing && !ts.monitor,
        ts.fx.bypass && ts.fx.preset == FxPreset::Dry,
        ts.input_peak@[0].bits == 0 && ts.input_peak@[1].bits == 0,
        ts.output_peak@[0].bits == 0 && ts.output_peak@[1].bits == 0,
        ts.pan.bits == 0,
        ts.loop_send == BusSend::Both && ts.monitor_send == BusSend::Both,
{
}

} // verus!
