//! The musical state of the engine as mathematics: what a command and what an input block make of
//! it.
use vstd::prelude::*;
use crate::bus::{clamped_output, Bus, BusOutput, BusSend, TrackSource};
use crate::command::{
    Command,
    Refusal,
    Status,
    TrackLatency,
    TrackState,
    TrackStatus,
    MAX_TRACKS,
};
use crate::delay::{renoted, retuned};
use crate::fx::{preset_knobs, turned, Chain, FxParam, FxPreset, FxSlot, Knobs};
use crate::queue::first_of;
use crate::single::{Single, SIGN};
use crate::timeline::{
    a_located_position_is_that_position,
    a_position_lies_in_its_bar,
    tempo_error,
    Bpm,
    TimeSignature,
    Timeline,
};
use crate::track::{
    a_recorded_position_is_read_on_every_pass,
    mask_bit,
    mask_of,
    the_mask_shows_every_layer,
    LayerModel,
    Mix,
    PendingModel,
    TrackModel,
    MAX_LAYERS,
    UNITY,
};
use crate::waiting::SCHEDULED_SLOTS;

verus! {

/// Bit pattern of the number -1.
pub const MINUS_ONE: u32 = 0xbf80_0000;

/// The largest compensation that leaves room for a surcharge.
pub const MAX_LATENCY: u64 = 0x7fff_ffff_ffff_ffff;

/// The musical state of the engine.
#[verifier::ext_equal]
pub struct EngineModel {
    pub timeline: Timeline,
    pub latency: u64,
    pub out_pos: u64,
    pub in_index: u64,
    pub input_channels: usize,
    pub tracks: Seq<TrackModel>,
    pub spares: Seq<Seq<u32>>,
    pub spare_slots: usize,
    pub layer_capacity: u64,
    pub click: bool,
    pub scheduled: Seq<Command>,
    /// The queues this engine is at one end of.
    pub links: Links,
    /// Commands that are known to be in the queue.
    pub announced: nat,
    /// Commands that came out of the queue so far.
    pub collected: Seq<Command>,
    pub main_gain: Single,
    pub monitor_gain: Single,
    pub routing: (BusOutput, BusOutput),
    pub output_channels: usize,
    pub status_interval: u64,
    pub since_status: u64,
    pub output_peak: Single,
    pub ignored_commands: u64,
    pub refusal: Refusal,
    pub buffers_taken: u64,
    pub stopped: bool,
    /// Buffers that are known to be on their way in.
    pub delivered: nat,
    /// Buffers that came in so far.
    pub arrived: Seq<Seq<u32>>,
    /// Buffers that were sent back so far.
    pub returned: Seq<Seq<u32>>,
    /// Snapshots that were offered to the control thread so far.
    pub offered: Seq<Status>,
    /// Snapshots that found room in the queue so far.
    pub published: Seq<Status>,
    /// Snapshots that are certain to find room.
    pub status_room: nat,
}

/// What goes through the four queues between the two threads.
#[verifier::ext_equal]
pub ghost struct Links {
    pub commands: Map<int, Command>,
    pub statuses: Map<int, Status>,
    pub buffers: Map<int, Seq<u32>>,
    pub returns: Map<int, Seq<u32>>,
}

/// What the layers of a track hold, the newest first.
pub open spec fn newest_first(layers: Seq<LayerModel>) -> Seq<Seq<u32>> {
    layers.map_values(|layer: LayerModel| layer.samples).reverse()
}

/// The buffer of a waiting take, if there is one.
pub open spec fn held_back(track: TrackModel) -> Seq<Seq<u32>> {
    match track.pending {
        Some(pending) => seq![pending.buffer],
        None => Seq::empty(),
    }
}

/// What a track gives back when it is cleared: the buffer of a waiting take, then its layers.
pub open spec fn held(track: TrackModel) -> Seq<Seq<u32>> {
    held_back(track) + newest_first(track.layers)
}

/// What a list of tracks gives back when all of them are cleared, in order.
pub open spec fn all_held(tracks: Seq<TrackModel>) -> Seq<Seq<u32>>
    decreases tracks.len(),
{
    if tracks.len() == 0 {
        Seq::empty()
    } else {
        all_held(tracks.drop_last()) + held(tracks.last())
    }
}

/// The buffers of the waiting takes of a list of tracks, in order.
pub open spec fn all_held_back(tracks: Seq<TrackModel>) -> Seq<Seq<u32>>
    decreases tracks.len(),
{
    if tracks.len() == 0 {
        Seq::empty()
    } else {
        all_held_back(tracks.drop_last()) + held_back(tracks.last())
    }
}

/// The newest layer goes first, and then the rest.
pub proof fn lemma_newest_goes_first(layers: Seq<LayerModel>)
    requires
        layers.len() > 0,
    ensures
        newest_first(layers) == seq![layers.last().samples] + newest_first(layers.drop_last()),
{
    assert(newest_first(layers) =~= seq![layers.last().samples] + newest_first(
        layers.drop_last(),
    ));
}

/// How many layer buffers a list of tracks holds.
pub open spec fn total_buffers(tracks: Seq<TrackModel>) -> int
    decreases tracks.len(),
{
    if tracks.len() == 0 {
        0
    } else {
        total_buffers(tracks.drop_last()) + tracks.last().buffers()
    }
}

/// One track exchanged changes the sum by the difference of the two.
pub proof fn lemma_total_buffers_update(tracks: Seq<TrackModel>, t: int, track: TrackModel)
    requires
        0 <= t < tracks.len(),
    ensures
        total_buffers(tracks.update(t, track)) == total_buffers(tracks) - tracks[t].buffers()
            + track.buffers(),
    decreases tracks.len(),
{
    let changed = tracks.update(t, track);
    if t == tracks.len() - 1 {
        assert(changed.drop_last() =~= tracks.drop_last());
    } else {
        assert(changed.drop_last() =~= tracks.drop_last().update(t, track));
        lemma_total_buffers_update(tracks.drop_last(), t, track);
    }
}

/// One more, as far as the counter goes.
pub open spec fn counted(n: u64) -> u64 {
    if n < u64::MAX {
        (n + 1) as u64
    } else {
        n
    }
}

/// `k` more, as far as the counter goes.
pub open spec fn counted_by(n: u64, k: nat) -> u64 {
    if n + k > u64::MAX {
        u64::MAX
    } else {
        (n + k) as u64
    }
}

/// The buffer a take gets out of a stock: the newest one that is long enough.
pub open spec fn spare_of(spares: Seq<Seq<u32>>, capacity: u64) -> Option<Seq<u32>>
    decreases spares.len(),
{
    if spares.len() == 0 {
        None
    } else if spares.last().len() >= capacity {
        Some(spares.last())
    } else {
        spare_of(spares.drop_last(), capacity)
    }
}

/// What is left of the stock then. Buffers that are too short have been given back.
pub open spec fn spares_left(spares: Seq<Seq<u32>>, capacity: u64) -> Seq<Seq<u32>>
    decreases spares.len(),
{
    if spares.len() == 0 {
        spares
    } else if spares.last().len() >= capacity {
        spares.drop_last()
    } else {
        spares_left(spares.drop_last(), capacity)
    }
}

/// The buffers that are given back on the way to one that is long enough, the newest first.
pub open spec fn too_short(spares: Seq<Seq<u32>>, capacity: u64) -> Seq<Seq<u32>>
    decreases spares.len(),
{
    if spares.len() == 0 || spares.last().len() >= capacity {
        Seq::empty()
    } else {
        seq![spares.last()] + too_short(spares.drop_last(), capacity)
    }
}

/// A track without takes.
pub open spec fn without_takes(track: TrackModel) -> TrackModel {
    TrackModel { take: None, filled: 0, pending: None, ..track }
}

/// A track without takes and layers, silent.
pub open spec fn cleared(track: TrackModel) -> TrackModel {
    TrackModel {
        playing: false,
        layers: Seq::empty(),
        origin: 0,
        loop_len: 0,
        ..without_takes(track)
    }
}

/// A cleared track with its switches as at the start.
pub open spec fn as_started(track: TrackModel) -> TrackModel {
    TrackModel { monitor: track.monitor_at_start, ..cleared(track) }
}

/// A track that neither records nor plays.
pub open spec fn stopped(track: TrackModel) -> TrackModel {
    TrackModel { playing: false, ..without_takes(track) }
}

/// Where a take ends at an input position, if it does: where it was stopped, or else where it runs
/// out of room.
pub open spec fn ended_at(track: TrackModel, pos: u64) -> Option<u64> {
    match track.take {
        Some(take) => match take.end {
            Some(end) if pos >= end => Some(end),
            _ => if pos >= track.limit() {
                Some(track.limit())
            } else {
                None
            },
        },
        None => None,
    }
}

/// One sample into whatever take is open, if the position belongs to it.
pub open spec fn written_into_take(track: TrackModel, pos: u64, sample: u32) -> TrackModel {
    match track.take {
        Some(take) => if pos >= take.start && ended_at(track, pos) is None {
            track.recorded(pos, sample)
        } else {
            track
        },
        None => track,
    }
}

/// What becomes of a track while it is being recorded: the track itself, the buffers it gave back,
/// and how many waiting takes found no room.
#[verifier::ext_equal]
pub struct Recorded {
    pub track: TrackModel,
    pub returned: Seq<Seq<u32>>,
    pub refused: nat,
}

/// The running take is over: what was queued behind it starts. A queued new loop sends the old
/// layers back first.
pub open spec fn take_closed(track: TrackModel, end: u64) -> Recorded {
    let closed = track.finished_at(end);
    match closed.pending {
        Some(pending) => if pending.defines_loop {
            Recorded {
                track: cleared(closed).opened(pending.start, true, pending.buffer),
                returned: newest_first(closed.layers),
                refused: 0,
            }
        } else if closed.layers.len() < MAX_LAYERS {
            Recorded {
                track: (TrackModel { pending: None, ..closed }).opened(
                    pending.start,
                    false,
                    pending.buffer,
                ),
                returned: Seq::empty(),
                refused: 0,
            }
        } else {
            Recorded {
                track: TrackModel { pending: None, ..closed },
                returned: seq![pending.buffer],
                refused: 1,
            }
        },
        None => Recorded { track: closed, returned: Seq::empty(), refused: 0 },
    }
}

/// One input sample for one track: its level is noted, and if it was played at a musical position
/// it goes into the take that position belongs to. The sample that ends a take is the first one of
/// a take queued behind it.
pub open spec fn sample_fed(track: TrackModel, pos: Option<u64>, sample: u32) -> Recorded {
    let magnitude = (Single { bits: sample }).unsigned();
    let metered = TrackModel {
        input_peak: if track.input_peak.lt(magnitude) {
            magnitude
        } else {
            track.input_peak
        },
        ..track
    };
    let unchanged = Recorded { track: metered, returned: Seq::empty(), refused: 0 };
    match (pos, metered.take) {
        (Some(pos), Some(take)) => if pos < take.start {
            unchanged
        } else {
            match ended_at(metered, pos) {
                Some(end) => {
                    let after = take_closed(metered, end);
                    Recorded { track: written_into_take(after.track, pos, sample), ..after }
                },
                None => Recorded { track: metered.recorded(pos, sample), ..unchanged },
            }
        },
        _ => unchanged,
    }
}

/// The musical position an input frame was played at, if it was played after position 0.
pub open spec fn played_at(k: int, latency: int) -> Option<u64> {
    if k >= latency {
        Some((k - latency) as u64)
    } else {
        None
    }
}

/// What the first `frames` frames of an input block make of a track. A channel the block does not
/// have is passed over.
pub open spec fn block_fed(
    track: TrackModel,
    input: Seq<u32>,
    channels: int,
    frames: nat,
    in_index: int,
    latency: int,
) -> Recorded
    decreases frames,
{
    if frames == 0 {
        Recorded { track, returned: Seq::empty(), refused: 0 }
    } else {
        let j = frames - 1;
        let so_far = block_fed(track, input, channels, j as nat, in_index, latency);
        let at = j * channels + track.input_channel;
        if at < input.len() {
            let step = sample_fed(so_far.track, played_at(in_index + j, latency), input[at]);
            Recorded {
                track: step.track,
                returned: so_far.returned + step.returned,
                refused: so_far.refused + step.refused,
            }
        } else {
            so_far
        }
    }
}

/// The loudest sample of a block, sign aside. What is no number is passed over.
pub open spec fn loudest(output: Seq<u32>) -> Single
    decreases output.len(),
{
    if output.len() == 0 {
        Single { bits: 0 }
    } else {
        let so_far = loudest(output.drop_last());
        let magnitude = (Single { bits: output.last() }).unsigned();
        if so_far.lt(magnitude) {
            magnitude
        } else {
            so_far
        }
    }
}

/// A sample limited to full scale.
pub open spec fn limited(sample: u32) -> u32 {
    (Single { bits: sample }).clamped(Single { bits: MINUS_ONE }, Single { bits: UNITY }).bits
}

/// Whether a snapshot shows this track, where its next input frame was played at `now`.
pub open spec fn track_shown_by(track: TrackModel, now: u64, s: TrackStatus) -> bool {
    &&& s.state == track.state_at(now)
    &&& s.layers == track.layers.len()
    &&& s.muted_mask == mask_of(track.layers)
    &&& s.loop_len == track.loop_len
    &&& s.origin == track.origin
    &&& s.filled == track.filled
    &&& s.input_peak@ == seq![track.input_peak, Single { bits: 0 }]
    &&& s.output_peak@ == seq![track.output_peak, track.output_peak]
    &&& s.monitor == track.monitor
    &&& s.playing == track.playing
    &&& s.input_channels@ == seq![track.input_channel as u8, 0]
    &&& s.channels == 1
    &&& s.pan == track.mix.pan
    &&& s.loop_send == track.mix.loop_send
    &&& s.monitor_send == track.mix.monitor_send
    &&& s.fx.bypass == track.chain.spec_bypass()
    &&& s.fx.preset == track.chain.spec_preset()
    &&& s.fx.settings@ == track.chain.knobs()
    &&& s.fx.delay_samples == track.chain.tap().target()
    &&& s.fx.reduction_db == track.reduction_db
}

/// A track whose meters start anew.
pub open spec fn meters_at_rest(track: TrackModel) -> TrackModel {
    TrackModel {
        input_peak: Single { bits: 0 },
        output_peak: Single { bits: 0 },
        reduction_db: Single { bits: 0 },
        ..track
    }
}

/// Whether a command acts on an effect chain.
pub open spec fn acts_on_chain(cmd: Command) -> bool {
    cmd is SetFxBypass || cmd is SetFxEnabled || cmd is SetFxParam || cmd is LoadFxPreset
}

/// What an effect command makes of a chain.
pub open spec fn chain_changed(before: Chain, after: Chain, cmd: Command) -> bool {
    &&& after.wf()
    &&& after.same_motion(before)
    &&& after.tap().spec_tempo() == before.tap().spec_tempo()
    &&& match cmd {
        Command::SetFxBypass { on, .. } => {
            &&& after.spec_bypass() == on
            &&& after.knobs() == before.knobs()
            &&& after.spec_preset() == before.spec_preset()
            &&& after.tap() == before.tap()
        },
        Command::SetFxEnabled { slot, on, .. } => {
            &&& after.spec_bypass() == before.spec_bypass()
            &&& after.knobs() == (Knobs {
                enabled: before.knobs().enabled.update(slot.place(), on),
                ..before.knobs()
            })
            &&& after.spec_preset() == (if before.knobs().enabled[slot.place()] != on {
                FxPreset::Custom
            } else {
                before.spec_preset()
            })
            &&& after.tap() == before.tap()
        },
        Command::SetFxParam { param, .. } => {
            &&& after.spec_bypass() == before.spec_bypass()
            &&& after.knobs() == turned(before.knobs(), param)
            &&& after.spec_preset() == FxPreset::Custom
            &&& match param {
                FxParam::DelayNote(note) => renoted(before.tap(), after.tap(), note),
                _ => after.tap() == before.tap(),
            }
        },
        Command::LoadFxPreset { preset, .. } => {
            &&& after.spec_bypass() == (preset == FxPreset::Dry)
            &&& after.knobs() == preset_knobs(preset)
            &&& after.spec_preset() == preset
            &&& renoted(before.tap(), after.tap(), preset_knobs(preset).delay_note)
        },
        _ => after == before,
    }
}

/// A chain that has been told the tempo. Telling it the tempo it has changes nothing.
pub open spec fn chain_tuned(before: Chain, after: Chain, bpm: Bpm) -> bool {
    &&& after.wf()
    &&& after.same_motion(before)
    &&& retuned(before.tap(), after.tap(), bpm)
    &&& after.knobs() == before.knobs()
    &&& after.spec_preset() == before.spec_preset()
    &&& after.spec_bypass() == before.spec_bypass()
}

/// A track whose chain has been told the tempo, and nothing else.
pub open spec fn track_tuned(before: TrackModel, after: TrackModel, bpm: Bpm) -> bool {
    chain_tuned(before.chain, after.chain, bpm) && after == (TrackModel {
        chain: after.chain,
        ..before
    })
}

impl EngineModel {
    /// The command that comes out of the queue next.
    pub open spec fn upcoming(self) -> Command {
        self.links.commands[self.collected.len() as int]
    }

    pub open spec fn wf(self) -> bool {
        &&& self.timeline.wf()
        &&& self.collected == first_of(self.links.commands, self.collected.len())
        &&& self.arrived == first_of(self.links.buffers, self.arrived.len())
        &&& self.tracks.len() <= MAX_TRACKS
        &&& forall|t: int| 0 <= t < self.tracks.len() ==> (#[trigger] self.tracks[t]).wf()
        &&& self.latency <= MAX_LATENCY
        &&& self.input_channels >= 1
        &&& self.scheduled.len() <= SCHEDULED_SLOTS
        &&& self.spares.len() <= self.spare_slots
        &&& self.status_interval >= 1
        &&& self.since_status <= self.out_pos
        &&& self.arrived.len() == self.returned.len() + self.spares.len() + total_buffers(self.tracks)
    }

    pub open spec fn refused(self, reason: Refusal) -> EngineModel {
        EngineModel {
            ignored_commands: counted(self.ignored_commands),
            refusal: reason,
            ..self
        }
    }

    pub open spec fn with_track(self, t: int, track: TrackModel) -> EngineModel {
        EngineModel { tracks: self.tracks.update(t, track), ..self }
    }

    /// The compensation of one track.
    pub open spec fn latency_of(self, t: int) -> int {
        self.tracks[t].mix.latency.resolved(self.latency as int)
    }

    /// Musical position of the next input frame of one track.
    pub open spec fn input_now(self, t: int) -> u64 {
        if self.in_index >= self.latency_of(t) {
            (self.in_index - self.latency_of(t)) as u64
        } else {
            0
        }
    }

    /// Where a take asked for at `at` starts: the past cannot be recorded.
    pub open spec fn earliest(self, t: int, at: u64) -> u64 {
        if at >= self.input_now(t) {
            at
        } else {
            self.input_now(t)
        }
    }

    /// The stock after a take has asked for a buffer.
    pub open spec fn spare_asked(self) -> EngineModel {
        EngineModel {
            spares: spares_left(self.spares, self.layer_capacity),
            returned: self.returned + too_short(self.spares, self.layer_capacity),
            ..self
        }
    }

    /// A take opened with a buffer from the stock, or the reason why not.
    pub open spec fn begun(self, t: int, start: u64, defines_loop: bool) -> EngineModel {
        if self.tracks[t].layers.len() >= MAX_LAYERS {
            self.refused(Refusal::LayerLimit)
        } else {
            match spare_of(self.spares, self.layer_capacity) {
                Some(buffer) => self.spare_asked().with_track(
                    t,
                    self.tracks[t].opened(start, defines_loop, buffer),
                ),
                None => self.spare_asked().refused(Refusal::NoBuffer),
            }
        }
    }

    /// A take queued behind the one that is finishing, or the reason why not.
    pub open spec fn queued(self, t: int, start: u64, defines_loop: bool) -> EngineModel {
        match spare_of(self.spares, self.layer_capacity) {
            Some(buffer) => {
                let asked = self.spare_asked();
                EngineModel {
                    returned: asked.returned + held_back(self.tracks[t]),
                    ..asked.with_track(
                        t,
                        TrackModel {
                            pending: Some(PendingModel { start, defines_loop, buffer }),
                            ..self.tracks[t]
                        },
                    )
                }
            },
            None => self.spare_asked().refused(Refusal::NoBuffer),
        }
    }

    /// One track cleared, its buffers given back.
    pub open spec fn track_cleared(self, t: int) -> EngineModel {
        EngineModel {
            returned: self.returned + held(self.tracks[t]),
            ..self.with_track(t, cleared(self.tracks[t]))
        }
    }

    /// Every track cleared and its switches as at the start.
    pub open spec fn all_cleared(self) -> EngineModel {
        EngineModel {
            tracks: self.tracks.map_values(|track: TrackModel| as_started(track)),
            returned: self.returned + all_held(self.tracks),
            ..self
        }
    }

    /// Every take cancelled and every track silent.
    pub open spec fn all_stopped(self) -> EngineModel {
        EngineModel {
            tracks: self.tracks.map_values(|track: TrackModel| stopped(track)),
            returned: self.returned + all_held_back(self.tracks),
            stopped: true,
            ..self
        }
    }

    /// One track after something was recorded on it.
    pub open spec fn with_recorded(self, t: int, recorded: Recorded) -> EngineModel {
        EngineModel {
            tracks: self.tracks.update(t, recorded.track),
            returned: self.returned + recorded.returned,
            ignored_commands: counted_by(self.ignored_commands, recorded.refused),
            refusal: if recorded.refused > 0 {
                Refusal::LayerLimit
            } else {
                self.refusal
            },
            ..self
        }
    }

    /// What the first `frames` frames of an input block make of one track.
    pub open spec fn fed(self, t: int, input: Seq<u32>, frames: nat) -> Recorded {
        block_fed(
            self.tracks[t],
            input,
            self.input_channels as int,
            frames,
            self.in_index as int,
            self.latency_of(t),
        )
    }

    /// The first `n` tracks after an input block.
    pub open spec fn block_recorded(self, input: Seq<u32>, n: nat) -> EngineModel
        decreases n,
    {
        if n == 0 {
            self
        } else {
            let t = n - 1;
            self.block_recorded(input, t as nat).with_recorded(
                t,
                self.fed(t, input, input.len() / (self.input_channels as nat)),
            )
        }
    }

    /// Whether a snapshot was handed to the control thread: it stands last in the queue, and only a
    /// queue that has just shown no free slot may have refused it.
    pub open spec fn handed_out(self, s: Status, published: Seq<Status>, room: nat) -> bool {
        &&& self.status_room > 0 ==> published == self.published.push(s) && room
            == self.status_room - 1
        &&& published == self.published.push(s) || (published == self.published && room == 0)
    }

    /// The output meter after a block has been produced.
    pub open spec fn metered(self, output: Seq<u32>) -> EngineModel {
        EngineModel { output_peak: self.output_peak.larger(loudest(output)), ..self }
    }

    /// The two axes after a block of `produced` output and `consumed` input frames.
    pub open spec fn advanced(self, produced: int, consumed: int) -> EngineModel {
        EngineModel {
            out_pos: (self.out_pos + produced) as u64,
            in_index: (self.in_index + consumed) as u64,
            since_status: (self.since_status + produced) as u64,
            ..self
        }
    }

    /// Whether a snapshot shows this engine.
    pub open spec fn shown_by(self, s: Status) -> bool {
        let here = self.out_pos as int;
        &&& s.pos == self.out_pos
        &&& s.bar == self.timeline.bar_of(here)
        &&& s.beat == self.timeline.beat_of(here) % self.timeline.per_bar()
        &&& s.beat_offset == here - self.timeline.beat_at(self.timeline.beat_of(here))
        &&& forall|t: int|
            0 <= t < self.tracks.len() ==> track_shown_by(
                self.tracks[t],
                self.input_now(t),
                #[trigger] s.tracks@[t],
            )
        &&& forall|t: int|
            self.tracks.len() <= t < MAX_TRACKS ==> (#[trigger] s.tracks@[t]).fresh()
        &&& s.track_count == self.tracks.len()
        &&& s.output_peak == self.output_peak
        &&& s.click == self.click
        &&& s.bpm == self.timeline.tempo()
        &&& s.main_gain == self.main_gain
        &&& s.monitor_gain == self.monitor_gain
        &&& s.bus_out@ == self.routing
        &&& s.output_channels == self.output_channels
        &&& s.ignored_commands == self.ignored_commands
        &&& s.refusal == self.refusal
        &&& s.spares == self.spares.len() as u32
        &&& s.buffers_taken == self.buffers_taken
        &&& s.stopped == self.stopped
    }

    /// The engine after the level of one track's output was measured.
    pub open spec fn peak_noted(self, t: int, magnitude: Single) -> EngineModel {
        if t < self.tracks.len() {
            let before = self.tracks[t];
            self.with_track(
                t,
                TrackModel {
                    output_peak: if before.output_peak.lt(magnitude) {
                        magnitude
                    } else {
                        before.output_peak
                    },
                    ..before
                },
            )
        } else {
            self
        }
    }

    /// The engine after the gain reduction of one track's compressor was measured.
    pub open spec fn reduction_noted(self, t: int, db: Single) -> EngineModel {
        if t < self.tracks.len() {
            let before = self.tracks[t];
            self.with_track(
                t,
                TrackModel {
                    reduction_db: if db.lt(before.reduction_db) {
                        db
                    } else {
                        before.reduction_db
                    },
                    ..before
                },
            )
        } else {
            self
        }
    }

    /// A block of frames has gone by, with a snapshot of the engine if the interval was over.
    pub open spec fn block_told(self, after: EngineModel, frames: nat) -> bool {
        if self.since_status + frames >= self.status_interval {
            &&& after.offered.len() == self.offered.len() + 1
            &&& after.since_status == 0
        } else {
            &&& after.offered == self.offered
            &&& after.since_status == self.since_status + frames
        }
    }

    /// The engine after a snapshot: the meters start anew.
    pub open spec fn after_snapshot(self, s: Status) -> EngineModel {
        EngineModel {
            tracks: self.tracks.map_values(|track: TrackModel| meters_at_rest(track)),
            output_peak: Single { bits: 0 },
            since_status: 0,
            offered: self.offered.push(s),
            ..self
        }
    }

    /// Whether any track holds, records or plays something.
    pub open spec fn occupied(self) -> bool {
        exists|t: int|
            0 <= t < self.tracks.len() && {
                let track = #[trigger] self.tracks[t];
                track.layers.len() > 0 || track.take is Some || track.playing
            }
    }

    /// The engine after one command.
    pub open spec fn applied(self, cmd: Command) -> EngineModel {
        if cmd.target() matches Some(t) && t >= self.tracks.len() {
            self.refused(Refusal::NoSuchTarget)
        } else {
            match cmd {
                // The past cannot be recorded, so a late command starts with the next input frame.
                // A take that only waits for its tail is not cut off: the new one queues behind.
                Command::StartRecord { track, at } => {
                    let t = track as int;
                    if self.tracks[t].finishing() {
                        self.queued(t, self.earliest(t, at), true)
                    } else {
                        self.track_cleared(t).begun(t, self.earliest(t, at), true)
                    }
                },
                // An overdub on an empty track is simply the first take.
                Command::StartOverdub { track, at } => {
                    let t = track as int;
                    let defines = self.tracks[t].loop_len == 0;
                    if self.tracks[t].take is Some && !self.tracks[t].finishing() {
                        self.refused(Refusal::Busy)
                    } else if !defines && self.tracks[t].layers.len() >= MAX_LAYERS {
                        self.refused(Refusal::LayerLimit)
                    } else if self.tracks[t].finishing() {
                        self.queued(t, self.earliest(t, at), defines)
                    } else if defines {
                        self.track_cleared(t).begun(t, self.earliest(t, at), true)
                    } else {
                        self.begun(t, self.earliest(t, at), false)
                    }
                },
                Command::StopRecord { track, at } => self.with_track(
                    track as int,
                    self.tracks[track as int].stopped_at(at),
                ),
                Command::StartPlay { track, .. } => self.with_track(
                    track as int,
                    TrackModel { playing: true, ..self.tracks[track as int] },
                ),
                Command::StopPlay { track, .. } => self.with_track(
                    track as int,
                    TrackModel { playing: false, ..self.tracks[track as int] },
                ),
                Command::ClearTrack { track, .. } => self.track_cleared(track as int),
                Command::ClearAll { .. } => self.all_cleared(),
                Command::SetMonitor { track, on } => self.with_track(
                    track as int,
                    TrackModel { monitor: on, ..self.tracks[track as int] },
                ),
                Command::SetLayerMute { track, layer, muted } => {
                    let before = self.tracks[track as int];
                    if layer < before.layers.len() {
                        self.with_track(
                            track as int,
                            TrackModel {
                                layers: before.layers.update(
                                    layer as int,
                                    LayerModel { muted, ..before.layers[layer as int] },
                                ),
                                ..before
                            },
                        )
                    } else {
                        self.refused(Refusal::NoSuchTarget)
                    }
                },
                Command::SetLayerGain { track, layer, gain } => {
                    let before = self.tracks[track as int];
                    if layer < before.layers.len() {
                        self.with_track(
                            track as int,
                            TrackModel {
                                layers: before.layers.update(
                                    layer as int,
                                    LayerModel { gain, ..before.layers[layer as int] },
                                ),
                                ..before
                            },
                        )
                    } else {
                        self.refused(Refusal::NoSuchTarget)
                    }
                },
                // Removing while a take runs would renumber the layer that take writes into.
                Command::RemoveLayer { track, layer } => {
                    let before = self.tracks[track as int];
                    if before.take is Some {
                        self.refused(Refusal::Busy)
                    } else if layer < before.layers.len() {
                        let left = TrackModel {
                            layers: before.layers.remove(layer as int),
                            ..before
                        };
                        EngineModel {
                            returned: self.returned.push(before.layers[layer as int].samples),
                            ..self.with_track(
                                track as int,
                                if left.layers.len() == 0 {
                                    TrackModel { playing: false, ..left.emptied_if_bare() }
                                } else {
                                    left
                                },
                            )
                        }
                    } else {
                        self.refused(Refusal::NoSuchTarget)
                    }
                },
                Command::SetPan { track, pan } => {
                    let before = self.tracks[track as int];
                    self.with_track(
                        track as int,
                        TrackModel { mix: Mix { pan, ..before.mix }, ..before },
                    )
                },
                Command::SetTrackSend { track, source, send } => {
                    let before = self.tracks[track as int];
                    self.with_track(
                        track as int,
                        TrackModel {
                            mix: match source {
                                TrackSource::Loop => Mix { loop_send: send, ..before.mix },
                                TrackSource::Monitor => Mix { monitor_send: send, ..before.mix },
                            },
                            ..before
                        },
                    )
                },
                Command::SetTrackLatency { track, latency } => {
                    let before = self.tracks[track as int];
                    self.with_track(
                        track as int,
                        TrackModel { mix: Mix { latency, ..before.mix }, ..before },
                    )
                },
                Command::SetBusGain { bus, gain } => match bus {
                    Bus::Main => EngineModel { main_gain: gain, ..self },
                    Bus::Monitor => EngineModel { monitor_gain: gain, ..self },
                },
                Command::SetBusOutput { bus, out } => {
                    let fits = clamped_output(out, self.output_channels as int);
                    EngineModel {
                        routing: match bus {
                            Bus::Main => (fits, self.routing.1),
                            Bus::Monitor => (self.routing.0, fits),
                        },
                        ..self
                    }
                },
                // The effect commands change a chain and nothing else; see `chain_changed`.
                Command::SetFxBypass { .. } | Command::SetFxEnabled { .. }
                | Command::SetFxParam { .. } | Command::LoadFxPreset { .. } => self,
                Command::SetClick { on } => EngineModel { click: on, ..self },
                // A tempo change redefines what every sample position means, so it is only safe
                // while nothing is recorded, recording or playing. The stock is the wrong length
                // then and goes back.
                Command::SetTempo { bpm, signature, layer_capacity } => if self.occupied()
                    || tempo_error(self.timeline.rate() as u32, bpm, signature) is Some {
                    self.refused(Refusal::Tempo)
                } else {
                    EngineModel {
                        timeline: self.timeline.retimed(bpm, signature),
                        layer_capacity,
                        spares: Seq::empty(),
                        returned: self.returned + self.spares.reverse(),
                        ..self
                    }
                },
                Command::Stop => self.all_stopped(),
            }
        }
    }
}

// ---------------------------------------------------------------------------------------------
// What is heard where
// ---------------------------------------------------------------------------------------------

/// Something that can be heard.
#[derive(Clone, Copy, Debug, PartialEq, Eq, Structural)]
pub enum Source {
    /// The metronome.
    Click,
    /// The layers of a track.
    Loop(usize),
    /// The live input of a track.
    Input(usize),
}

impl EngineModel {
    /// Whether a bus carries a source right now. A track decides for itself which buses its loop and
    /// its live input feed; the click feeds the musician and nobody else.
    pub open spec fn carries(self, bus: Bus, source: Source) -> bool {
        match source {
            Source::Click => self.click && bus == Bus::Monitor,
            Source::Loop(t) => t < self.tracks.len() && self.tracks[t as int].playing
                && self.tracks[t as int].mix.loop_send.feeds(bus),
            Source::Input(t) => t < self.tracks.len() && self.tracks[t as int].monitor
                && self.tracks[t as int].mix.monitor_send.feeds(bus),
        }
    }
}

// ---------------------------------------------------------------------------------------------
// Laws
// ---------------------------------------------------------------------------------------------

/// Whether a take runs through a whole input block: it was begun before and ends after it, and its
/// buffer has a frame for every position.
pub open spec fn runs_through(
    track: TrackModel,
    input: Seq<u32>,
    channels: int,
    frames: nat,
    in_index: int,
    latency: int,
) -> bool {
    &&& track.wf()
    &&& track.take matches Some(take) && take.end is None
    &&& track.take->0.defines_loop || 0 < track.loop_len <= track.layers.last().samples.len()
    &&& track.input_channel < channels
    &&& frames * channels <= input.len()
    &&& 0 <= latency
    &&& 0 <= in_index
    &&& in_index + frames - latency <= track.limit()
}

proof fn lemma_frame_fits(frames: nat, j: int, channels: int, channel: int, len: int)
    requires
        0 <= j < frames,
        0 <= channel < channels,
        frames * channels <= len,
    ensures
        0 <= j * channels + channel < len,
{
    assert(0 <= j * channels && j * channels + channels <= frames * channels) by (nonlinear_arith)
        requires
            0 <= j < frames,
            0 < channels,
    ;
}

/// Two positions of one pass have two frames.
proof fn lemma_slots_differ(track: TrackModel, p: u64, q: u64)
    requires
        track.loop_len > 0,
        p < q < p + track.loop_len,
    ensures
        track.slot(p) != track.slot(q),
{
    let l = track.loop_len as int;
    let x = p - track.origin;
    let y = q - track.origin;
    vstd::arithmetic::div_mod::lemma_fundamental_div_mod(x, l);
    vstd::arithmetic::div_mod::lemma_fundamental_div_mod(y, l);
    if x % l == y % l {
        let k = y / l - x / l;
        assert(y - x == l * k) by (nonlinear_arith)
            requires
                x == l * (x / l) + x % l,
                y == l * (y / l) + y % l,
                x % l == y % l,
                k == y / l - x / l,
        ;
        assert(false) by (nonlinear_arith)
            requires
                0 < l * k < l,
                l > 0,
        ;
    }
}

proof fn lemma_block_written(
    track: TrackModel,
    input: Seq<u32>,
    channels: int,
    frames: nat,
    in_index: int,
    latency: int,
)
    requires
        runs_through(track, input, channels, frames, in_index, latency),
    ensures
        ({
            let r = block_fed(track, input, channels, frames, in_index, latency);
            &&& r.returned == Seq::<Seq<u32>>::empty()
            &&& r.refused == 0
            &&& r.track == (TrackModel {
                layers: r.track.layers,
                filled: r.track.filled,
                input_peak: r.track.input_peak,
                ..track
            })
            &&& r.track.layers.len() == track.layers.len()
            &&& r.track.layers.last().samples.len() == track.layers.last().samples.len()
            &&& forall|j: int|
                0 <= j < frames && in_index + j - latency >= track.take->0.start ==>
                    r.track.layers.last().samples[track.write_slot(
                    #[trigger] position(in_index, j, latency),
                )] == input[j * channels + track.input_channel]
        }),
    decreases frames,
{
    if frames > 0 {
        let n = (frames - 1) as nat;
        assert(n * channels <= frames * channels) by (nonlinear_arith)
            requires
                n <= frames,
                channels > 0,
        ;
        lemma_block_written(track, input, channels, n, in_index, latency);
        let so_far = block_fed(track, input, channels, n, in_index, latency);
        let now = so_far.track;
        lemma_frame_fits(frames, n as int, channels, track.input_channel as int, input.len() as int);
        let at = n * channels + track.input_channel;
        let sample = input[at];
        let pos = played_at(in_index + n, latency);
        let r = block_fed(track, input, channels, frames, in_index, latency);
        assert(now.limit() == track.limit());
        if in_index + n >= latency && in_index + n - latency >= track.take->0.start {
            let p = position(in_index, n as int, latency);
            assert(pos == Some(p));
            assert(p < track.limit());
            let slot = track.write_slot(p);
            assert(0 <= slot < track.layers.last().samples.len()) by {
                if !track.take->0.defines_loop {
                    vstd::arithmetic::div_mod::lemma_mod_bound(
                        p - track.origin,
                        track.loop_len as int,
                    );
                }
            }
            assert forall|j: int|
                0 <= j < frames && in_index + j - latency >= track.take->0.start implies
                r.track.layers.last().samples[track.write_slot(
                #[trigger] position(in_index, j, latency),
            )] == input[j * channels + track.input_channel] by {
                if j < n {
                    let q = position(in_index, j, latency);
                    if !track.take->0.defines_loop {
                        lemma_slots_differ(track, q, p);
                        vstd::arithmetic::div_mod::lemma_mod_bound(
                            q - track.origin,
                            track.loop_len as int,
                        );
                    }
                    assert(track.write_slot(q) != slot);
                }
            }
        } else {
            assert forall|j: int|
                0 <= j < frames && in_index + j - latency >= track.take->0.start implies
                r.track.layers.last().samples[track.write_slot(
                #[trigger] position(in_index, j, latency),
            )] == input[j * channels + track.input_channel] by {
                assert(j < n);
            }
        }
    }
}

/// The musical position input frame `in_index + j` was played at, where that is one.
pub open spec fn position(in_index: int, j: int, latency: int) -> u64 {
    (in_index + j - latency) as u64
}

/// Latency compensation: a frame that arrives at input index `k` is stored at the musical position
/// `k - R`, in the first layer as in every further one. Earlier frames of the same block are not
/// overwritten by later ones.
pub proof fn a_note_is_stored_where_it_was_played(
    track: TrackModel,
    input: Seq<u32>,
    channels: int,
    frames: nat,
    in_index: int,
    latency: int,
    j: int,
)
    requires
        runs_through(track, input, channels, frames, in_index, latency),
        0 <= j < frames,
        in_index + j - latency >= track.take->0.start,
    ensures
        ({
            let after = block_fed(track, input, channels, frames, in_index, latency).track;
            &&& after.take == track.take
            &&& after.layers.last().samples[track.write_slot(position(in_index, j, latency))]
                == input[j * channels + track.input_channel]
        }),
{
    lemma_block_written(track, input, channels, frames, in_index, latency);
}

/// What was played at a musical position is heard at that position on every pass through the loop,
/// once the take that defines the loop has been stopped behind it.
pub proof fn what_was_played_is_heard_on_every_pass(
    track: TrackModel,
    input: Seq<u32>,
    channels: int,
    frames: nat,
    in_index: int,
    latency: int,
    j: int,
    end: u64,
    pass: int,
)
    requires
        runs_through(track, input, channels, frames, in_index, latency),
        track.take->0.defines_loop,
        track.origin == track.take->0.start,
        0 <= j < frames,
        track.take->0.start <= in_index + j - latency < end,
        end <= track.limit(),
        pass >= 0,
        position(in_index, j, latency) + pass * (end - track.take->0.start) <= u64::MAX,
    ensures
        ({
            let recorded = block_fed(track, input, channels, frames, in_index, latency).track;
            let done = recorded.stopped_at(end).finished_at(end);
            let heard_at = (position(in_index, j, latency) + pass * done.loop_len) as u64;
            &&& done.take is None
            &&& done.loop_len == end - track.take->0.start
            &&& done.origin == track.origin
            &&& done.layers.last().samples[done.slot(heard_at)] == input[j * channels
                + track.input_channel]
        }),
{
    lemma_block_written(track, input, channels, frames, in_index, latency);
    let recorded = block_fed(track, input, channels, frames, in_index, latency).track;
    let done = recorded.stopped_at(end).finished_at(end);
    assert(recorded.limit() == track.limit());
    a_recorded_position_is_read_on_every_pass(done, position(in_index, j, latency), pass);
}

/// What arrives before the compensation has passed was not played after position 0 and is not
/// recorded: only the meter sees it.
pub proof fn what_was_played_before_the_start_is_not_recorded(track: TrackModel, sample: u32)
    ensures
        sample_fed(track, None, sample).track == (TrackModel {
            input_peak: sample_fed(track, None, sample).track.input_peak,
            ..track
        }),
{
}

/// A command for a track that does not exist changes nothing but the count of refused commands and
/// the reason.
pub proof fn a_command_without_a_target_is_only_counted(m: EngineModel, cmd: Command)
    requires
        cmd.target() matches Some(t) && t >= m.tracks.len(),
    ensures
        m.applied(cmd) == (EngineModel {
            ignored_commands: counted(m.ignored_commands),
            refusal: Refusal::NoSuchTarget,
            ..m
        }),
{
}

/// After everything has been cleared, every track is empty and silent and its monitoring is as it
/// was started.
pub proof fn clearing_everything_leaves_empty_tracks(m: EngineModel, at: u64, t: int)
    requires
        0 <= t < m.tracks.len(),
    ensures
        ({
            let track = m.applied(Command::ClearAll { at }).tracks[t];
            &&& track.layers.len() == 0
            &&& track.loop_len == 0
            &&& track.filled == 0
            &&& track.take is None
            &&& track.pending is None
            &&& !track.playing
            &&& track.monitor == m.tracks[t].monitor_at_start
            &&& track.buffers() == 0
        }),
{
}

/// A stop ends every take and every playback, and keeps every layer.
pub proof fn a_stop_silences_and_keeps_the_layers(m: EngineModel, t: int)
    requires
        0 <= t < m.tracks.len(),
    ensures
        ({
            let after = m.applied(Command::Stop);
            &&& after.stopped
            &&& after.tracks[t].take is None
            &&& after.tracks[t].pending is None
            &&& !after.tracks[t].playing
            &&& after.tracks[t].layers == m.tracks[t].layers
        }),
{
}

/// A new tempo is only taken over while nothing is recorded, recording or playing; otherwise the
/// grid stays.
pub proof fn a_tempo_change_needs_an_idle_engine(m: EngineModel, cmd: Command)
    requires
        cmd is SetTempo,
        m.occupied(),
    ensures
        m.applied(cmd).timeline == m.timeline,
        m.applied(cmd).tracks == m.tracks,
        m.applied(cmd).refusal == Refusal::Tempo,
{
}

/// The room never hears the click, whatever was commanded before.
pub proof fn the_click_never_reaches_main(m: EngineModel)
    ensures
        !m.carries(Bus::Main, Source::Click),
{
}

/// Switching the monitoring of a track leaves everything else as loud as it was: what a bus carries
/// of the loops and of the other inputs does not change.
pub proof fn monitoring_is_independent_of_playback(
    m: EngineModel,
    track: usize,
    on: bool,
    bus: Bus,
    source: Source,
)
    requires
        track < m.tracks.len(),
        source != Source::Input(track),
    ensures
        m.applied(Command::SetMonitor { track, on }).carries(bus, source) == m.carries(bus, source),
{
}

/// A command for one track leaves every other one as it was, and no command but a clearing or a
/// stop of everything touches all of them.
pub proof fn a_command_leaves_the_other_tracks_alone(m: EngineModel, cmd: Command, t: int)
    requires
        0 <= t < m.tracks.len(),
        !(cmd is ClearAll),
        !(cmd is Stop),
        cmd.target() matches Some(track) ==> track != t,
    ensures
        m.applied(cmd).tracks.len() == m.tracks.len(),
        m.applied(cmd).tracks[t] == m.tracks[t],
{
}

/// The compensation of a track is the one it was given: its own measurement, or else the engine's
/// value, with the surcharge and never below zero. Every other track keeps its own, and nothing
/// else of the engine changes.
pub proof fn a_track_gets_the_compensation_it_was_given(
    m: EngineModel,
    track: usize,
    latency: TrackLatency,
    t: int,
)
    requires
        track < m.tracks.len(),
        0 <= t < m.tracks.len(),
    ensures
        ({
            let after = m.applied(Command::SetTrackLatency { track, latency });
            let base = match latency.measured {
                Some(measured) => measured as int,
                None => m.latency as int,
            };
            &&& base + latency.trim >= 0 ==> after.latency_of(track as int) == base + latency.trim
            &&& base + latency.trim < 0 ==> after.latency_of(track as int) == 0
            &&& t != track ==> after.latency_of(t) == m.latency_of(t)
            &&& after == (EngineModel { tracks: after.tracks, ..m })
            &&& after.tracks[t] == (TrackModel { mix: after.tracks[t].mix, ..m.tracks[t] })
            &&& after.tracks[t].mix == (Mix {
                latency: after.tracks[t].mix.latency,
                ..m.tracks[t].mix
            })
        }),
{
}

proof fn lemma_block_reaches_every_track(m: EngineModel, input: Seq<u32>, n: nat, t: int)
    requires
        m.input_channels >= 1,
        0 <= t < n <= m.tracks.len(),
    ensures
        m.block_recorded(input, n).tracks.len() == m.tracks.len(),
        m.block_recorded(input, n).tracks[t] == m.fed(
            t,
            input,
            input.len() / (m.input_channels as nat),
        ).track,
    decreases n,
{
    let fewer = m.block_recorded(input, (n - 1) as nat);
    lemma_block_keeps_the_tracks(m, input, (n - 1) as nat);
    let fed = m.fed(n - 1, input, input.len() / (m.input_channels as nat));
    assert(m.block_recorded(input, n) == fewer.with_recorded(n - 1, fed));
    if t < n - 1 {
        lemma_block_reaches_every_track(m, input, (n - 1) as nat, t);
    }
}

proof fn lemma_block_keeps_the_tracks(m: EngineModel, input: Seq<u32>, n: nat)
    requires
        m.input_channels >= 1,
        n <= m.tracks.len(),
    ensures
        m.block_recorded(input, n).tracks.len() == m.tracks.len(),
    decreases n,
{
    if n > 0 {
        let fewer = m.block_recorded(input, (n - 1) as nat);
        lemma_block_keeps_the_tracks(m, input, (n - 1) as nat);
        let fed = m.fed(n - 1, input, input.len() / (m.input_channels as nat));
        assert(m.block_recorded(input, n) == fewer.with_recorded(n - 1, fed));
    }
}

/// Once a track has been given a compensation, a frame that arrives on its channel at input index
/// `k` is stored where `k` less that compensation belongs: that many frames behind the start of a
/// take that defines the loop.
pub proof fn a_frame_is_stored_by_the_compensation_of_its_track(
    m: EngineModel,
    track: usize,
    latency: TrackLatency,
    input: Seq<u32>,
    j: int,
)
    requires
        track < m.tracks.len(),
        m.input_channels >= 1,
        runs_through(
            m.tracks[track as int],
            input,
            m.input_channels as int,
            input.len() / (m.input_channels as nat),
            m.in_index as int,
            latency.resolved(m.latency as int),
        ),
        0 <= j < input.len() / (m.input_channels as nat),
        m.in_index + j - latency.resolved(m.latency as int)
            >= m.tracks[track as int].take->0.start,
    ensures
        ({
            let before = m.tracks[track as int];
            let set = m.applied(Command::SetTrackLatency { track, latency });
            let after = set.block_recorded(input, set.tracks.len()).tracks[track as int];
            let k = m.in_index + j;
            let sample = input[j * m.input_channels + before.input_channel];
            let played = k - latency.resolved(m.latency as int);
            &&& after.layers.len() == before.layers.len()
            &&& before.take->0.defines_loop ==> after.layers.last().samples[played
                - before.take->0.start] == sample
            &&& !before.take->0.defines_loop ==> after.layers.last().samples[(played
                - before.origin) % (before.loop_len as int)] == sample
        }),
{
    let set = m.applied(Command::SetTrackLatency { track, latency });
    let before = m.tracks[track as int];
    let now = set.tracks[track as int];
    let frames = input.len() / (m.input_channels as nat);
    lemma_block_reaches_every_track(set, input, set.tracks.len(), track as int);
    let resolved = latency.resolved(m.latency as int);
    assert(set.latency_of(track as int) == resolved);
    assert(runs_through(now, input, m.input_channels as int, frames, m.in_index as int, resolved));
    lemma_block_written(now, input, m.input_channels as int, frames, m.in_index as int, resolved);
    let p = position(m.in_index as int, j, resolved);
    assert(now.write_slot(p) == before.write_slot(p));
    assert(p == m.in_index + j - resolved);
}

/// Every track that records hears its own compensation: the same frame goes to a position of its
/// own on each of them.
pub proof fn tracks_are_compensated_each_for_itself(
    m: EngineModel,
    input: Seq<u32>,
    t: int,
    j: int,
)
    requires
        0 <= t < m.tracks.len(),
        m.input_channels >= 1,
        runs_through(
            m.tracks[t],
            input,
            m.input_channels as int,
            input.len() / (m.input_channels as nat),
            m.in_index as int,
            m.latency_of(t),
        ),
        m.tracks[t].take->0.defines_loop,
        0 <= j < input.len() / (m.input_channels as nat),
        m.in_index + j - m.latency_of(t) >= m.tracks[t].take->0.start,
    ensures
        m.block_recorded(input, m.tracks.len()).tracks[t].layers.last().samples[m.in_index + j
            - m.latency_of(t) - m.tracks[t].take->0.start] == input[j * m.input_channels
            + m.tracks[t].input_channel],
{
    let frames = input.len() / (m.input_channels as nat);
    let latency = m.latency_of(t);
    lemma_block_reaches_every_track(m, input, m.tracks.len(), t);
    lemma_block_written(
        m.tracks[t],
        input,
        m.input_channels as int,
        frames,
        m.in_index as int,
        latency,
    );
    let p = position(m.in_index as int, j, latency);
    assert(m.tracks[t].write_slot(p) == p - m.tracks[t].take->0.start);
}

/// A switch or a knob of the mix changes what it names to what it says, and nothing else.
pub proof fn the_mix_is_what_was_set(
    m: EngineModel,
    track: usize,
    on: bool,
    value: Single,
    send: BusSend,
)
    requires
        track < m.tracks.len(),
    ensures
        ({
            let before = m.tracks[track as int];
            let monitored = m.applied(Command::SetMonitor { track, on });
            let panned = m.applied(Command::SetPan { track, pan: value });
            let looped = m.applied(
                Command::SetTrackSend { track, source: TrackSource::Loop, send },
            );
            let heard = m.applied(
                Command::SetTrackSend { track, source: TrackSource::Monitor, send },
            );
            &&& monitored == m.with_track(track as int, TrackModel { monitor: on, ..before })
            &&& panned.tracks[track as int].mix.pan == value
            &&& panned.tracks[track as int].mix.loop_send == before.mix.loop_send
            &&& panned.tracks[track as int].mix.monitor_send == before.mix.monitor_send
            &&& panned.tracks[track as int].mix.latency == before.mix.latency
            &&& looped.tracks[track as int].mix.loop_send == send
            &&& looped.tracks[track as int].mix.monitor_send == before.mix.monitor_send
            &&& looped.tracks[track as int].mix.pan == before.mix.pan
            &&& looped.tracks[track as int].mix.latency == before.mix.latency
            &&& heard.tracks[track as int].mix.monitor_send == send
            &&& heard.tracks[track as int].mix.loop_send == before.mix.loop_send
            &&& heard.tracks[track as int].mix.pan == before.mix.pan
            &&& heard.tracks[track as int].mix.latency == before.mix.latency
            &&& only_the_mix(panned, m, track)
            &&& only_the_mix(looped, m, track)
            &&& only_the_mix(heard, m, track)
        }),
{
}

/// Nothing but the mix of one track differs.
pub open spec fn only_the_mix(after: EngineModel, before: EngineModel, track: usize) -> bool {
    after == before.with_track(
        track as int,
        TrackModel { mix: after.tracks[track as int].mix, ..before.tracks[track as int] },
    )
}

/// A bus has the volume it was given and the other one keeps its own; a bus leaves on the channels
/// it was given where the device has them, and the other one stays where it is.
pub proof fn a_bus_is_what_was_set(m: EngineModel, bus: Bus, gain: Single, out: BusOutput, on: bool)
    ensures
        ({
            let louder = m.applied(Command::SetBusGain { bus, gain });
            let moved = m.applied(Command::SetBusOutput { bus, out });
            let fits = out.width >= 1 && out.first + out.width <= m.output_channels;
            &&& bus == Bus::Main ==> louder.main_gain == gain && louder.monitor_gain
                == m.monitor_gain
            &&& bus == Bus::Monitor ==> louder.monitor_gain == gain && louder.main_gain
                == m.main_gain
            &&& louder == (EngineModel {
                main_gain: louder.main_gain,
                monitor_gain: louder.monitor_gain,
                ..m
            })
            &&& bus == Bus::Main ==> moved.routing.0 == clamped_output(
                out,
                m.output_channels as int,
            ) && moved.routing.1 == m.routing.1
            &&& bus == Bus::Monitor ==> moved.routing.1 == clamped_output(
                out,
                m.output_channels as int,
            ) && moved.routing.0 == m.routing.0
            &&& moved == (EngineModel { routing: moved.routing, ..m })
            &&& m.applied(Command::SetClick { on }) == (EngineModel { click: on, ..m })
        }),
{
}

/// A layer that exists is muted, unmuted or made louder as asked; the other layers, what is recorded
/// in it and its other switch stay. A layer that does not exist is refused.
pub proof fn a_layer_is_changed_alone(
    m: EngineModel,
    track: usize,
    layer: usize,
    muted: bool,
    gain: Single,
    i: int,
)
    requires
        track < m.tracks.len(),
        0 <= i < m.tracks[track as int].layers.len(),
    ensures
        ({
            let before = m.tracks[track as int].layers;
            let quiet = m.applied(Command::SetLayerMute { track, layer, muted });
            let louder = m.applied(Command::SetLayerGain { track, layer, gain });
            let a = quiet.tracks[track as int].layers;
            let b = louder.tracks[track as int].layers;
            &&& a.len() == before.len() && b.len() == before.len()
            &&& i == layer ==> a[i].muted == muted && b[i].gain == gain
            &&& i != layer ==> a[i].muted == before[i].muted && b[i].gain == before[i].gain
            &&& a[i].gain == before[i].gain && a[i].samples == before[i].samples
            &&& b[i].muted == before[i].muted && b[i].samples == before[i].samples
            &&& quiet.tracks[track as int] == (TrackModel { layers: a, ..m.tracks[track as int] })
            &&& louder.tracks[track as int] == (TrackModel { layers: b, ..m.tracks[track as int] })
            &&& layer < before.len() ==> quiet.ignored_commands == m.ignored_commands
                && louder.ignored_commands == m.ignored_commands
            &&& layer >= before.len() ==> quiet.refusal == Refusal::NoSuchTarget
                && louder.refusal == Refusal::NoSuchTarget && quiet.ignored_commands == counted(
                m.ignored_commands,
            ) && louder.ignored_commands == counted(m.ignored_commands)
        }),
{
}

/// Removing a layer takes out that one and no other: those below keep their number, those above move
/// down by one. The loop stays as long as a layer is left. A track that records refuses, and so does
/// a layer that does not exist.
pub proof fn a_layer_is_removed_alone(m: EngineModel, track: usize, layer: usize, i: int)
    requires
        track < m.tracks.len(),
    ensures
        ({
            let before = m.tracks[track as int];
            let removed = m.applied(Command::RemoveLayer { track, layer });
            let after = removed.tracks[track as int];
            &&& before.take is Some ==> after == before && removed.refusal == Refusal::Busy
                && removed.returned == m.returned
            &&& before.take is None && layer >= before.layers.len() ==> after == before
                && removed.refusal == Refusal::NoSuchTarget && removed.returned == m.returned
            &&& before.take is None && layer < before.layers.len() ==> {
                &&& after.layers.len() == before.layers.len() - 1
                &&& 0 <= i < layer ==> after.layers[i] == before.layers[i]
                &&& layer <= i < after.layers.len() ==> after.layers[i] == before.layers[i + 1]
                &&& removed.returned == m.returned.push(before.layers[layer as int].samples)
                &&& removed.refusal == m.refusal
                &&& after.layers.len() > 0 ==> after.loop_len == before.loop_len && after.origin
                    == before.origin && after.playing == before.playing
                &&& after.layers.len() == 0 ==> after.loop_len == 0 && !after.playing
            }
        }),
{
}

/// Starting and stopping playback decide whether a track is heard, and change nothing else.
pub proof fn a_track_plays_exactly_if_it_was_started(
    m: EngineModel,
    track: usize,
    at: u64,
    bus: Bus,
)
    requires
        track < m.tracks.len(),
    ensures
        ({
            let on = m.applied(Command::StartPlay { track, at });
            let off = m.applied(Command::StopPlay { track, at });
            &&& on.carries(bus, Source::Loop(track))
                == m.tracks[track as int].mix.loop_send.feeds(bus)
            &&& !off.carries(bus, Source::Loop(track))
            &&& on == m.with_track(
                track as int,
                TrackModel { playing: true, ..m.tracks[track as int] },
            )
            &&& off == m.with_track(
                track as int,
                TrackModel { playing: false, ..m.tracks[track as int] },
            )
        }),
{
}

/// The live input of a track is heard exactly on the buses its monitoring feeds, while it is on, and
/// the click exactly by the musician, while it is on.
pub proof fn monitoring_is_heard_where_it_is_sent(
    m: EngineModel,
    track: usize,
    on: bool,
    bus: Bus,
)
    requires
        track < m.tracks.len(),
    ensures
        m.applied(Command::SetMonitor { track, on }).carries(bus, Source::Input(track)) <==> on
            && m.tracks[track as int].mix.monitor_send.feeds(bus),
        m.applied(Command::SetClick { on }).carries(Bus::Monitor, Source::Click) <==> on,
{
}

/// Clearing a track takes its layers and its takes away and silences it; its switches, its mix and
/// its effects stay.
pub proof fn a_cleared_track_keeps_its_mix(m: EngineModel, track: usize, at: u64)
    requires
        track < m.tracks.len(),
    ensures
        ({
            let before = m.tracks[track as int];
            let after = m.applied(Command::ClearTrack { track, at }).tracks[track as int];
            &&& after.layers.len() == 0
            &&& after.loop_len == 0
            &&& after.origin == 0
            &&& after.take is None
            &&& after.pending is None
            &&& !after.playing
            &&& after.monitor == before.monitor
            &&& after.mix == before.mix
            &&& after.chain == before.chain
            &&& after.input_channel == before.input_channel
        }),
{
}

/// A new loop starts where it was asked for, or with the next input frame where that has passed, and
/// replaces whatever the track held. It needs a buffer that is long enough.
pub proof fn a_new_loop_replaces_the_old_one(m: EngineModel, track: usize, at: u64)
    requires
        track < m.tracks.len(),
        !m.tracks[track as int].finishing(),
        spare_of(m.spares, m.layer_capacity) is Some,
    ensures
        ({
            let t = track as int;
            let after = m.applied(Command::StartRecord { track, at });
            let now = after.tracks[t];
            let compensated = m.in_index - m.latency_of(t);
            &&& now.layers.len() == 1
            &&& now.layers[0].samples == spare_of(m.spares, m.layer_capacity)->0
            &&& !now.layers[0].muted
            &&& now.layers[0].gain == (Single { bits: UNITY })
            &&& now.take matches Some(take) && take.defines_loop && take.end is None && take.start
                >= at && take.start >= compensated && (take.start == at || take.start
                == compensated)
            &&& now.origin == now.take->0.start
            &&& now.loop_len == 0
            &&& !now.playing
            &&& now.mix == m.tracks[t].mix
            &&& now.monitor == m.tracks[t].monitor
            &&& after.refusal == m.refusal
            &&& after.ignored_commands == m.ignored_commands
        }),
{
}

/// A further layer leaves every layer there is and the loop as they are, whether the take is opened,
/// queued or refused.
pub proof fn a_further_layer_keeps_the_others(m: EngineModel, track: usize, at: u64, i: int)
    requires
        track < m.tracks.len(),
        m.tracks[track as int].loop_len > 0,
        0 <= i < m.tracks[track as int].layers.len(),
    ensures
        ({
            let before = m.tracks[track as int];
            let after = m.applied(Command::StartOverdub { track, at }).tracks[track as int];
            &&& after.layers.len() >= before.layers.len()
            &&& after.layers[i] == before.layers[i]
            &&& after.loop_len == before.loop_len
            &&& after.origin == before.origin
            &&& after.playing == before.playing
        }),
{
}

/// A further layer is opened on a track that holds a loop and does not record: one layer more, and a
/// take of one pass that starts where it was asked for or with the next input frame.
pub proof fn a_further_layer_is_opened(m: EngineModel, track: usize, at: u64)
    requires
        track < m.tracks.len(),
        m.tracks[track as int].loop_len > 0,
        m.tracks[track as int].take is None,
        m.tracks[track as int].layers.len() < MAX_LAYERS,
        spare_of(m.spares, m.layer_capacity) is Some,
    ensures
        ({
            let t = track as int;
            let after = m.applied(Command::StartOverdub { track, at }).tracks[t];
            let compensated = m.in_index - m.latency_of(t);
            &&& after.layers.len() == m.tracks[t].layers.len() + 1
            &&& after.layers.last().samples == spare_of(m.spares, m.layer_capacity)->0
            &&& !after.layers.last().muted
            &&& after.layers.last().gain == (Single { bits: UNITY })
            &&& after.take matches Some(take) && !take.defines_loop && take.end is None
                && take.start >= at && take.start >= compensated && (take.start == at
                || take.start == compensated)
        }),
{
}

/// What cannot be recorded is refused with its reason: a further layer while a take runs, a layer
/// beyond the limit, and any take without a buffer that is long enough.
pub proof fn a_take_is_refused_with_its_reason(m: EngineModel, track: usize, at: u64)
    requires
        track < m.tracks.len(),
    ensures
        ({
            let before = m.tracks[track as int];
            let layered = m.applied(Command::StartOverdub { track, at });
            let recorded = m.applied(Command::StartRecord { track, at });
            let running = before.take is Some && !before.finishing();
            let full = before.loop_len > 0 && before.layers.len() >= MAX_LAYERS;
            &&& running ==> layered == (EngineModel {
                ignored_commands: counted(m.ignored_commands),
                refusal: Refusal::Busy,
                ..m
            })
            &&& !running && full ==> layered == (EngineModel {
                ignored_commands: counted(m.ignored_commands),
                refusal: Refusal::LayerLimit,
                ..m
            })
            &&& !running && !full && spare_of(m.spares, m.layer_capacity) is None
                ==> layered.refusal == Refusal::NoBuffer && layered.ignored_commands == counted(
                m.ignored_commands,
            )
            &&& spare_of(m.spares, m.layer_capacity) is None ==> recorded.refusal
                == Refusal::NoBuffer && recorded.ignored_commands == counted(m.ignored_commands)
        }),
{
}

/// Behind a take that only waits for its tail a new one queues: the running take and the layers stay
/// until it is over.
pub proof fn a_take_queues_behind_one_that_finishes(m: EngineModel, track: usize, at: u64)
    requires
        track < m.tracks.len(),
        m.tracks[track as int].finishing(),
        spare_of(m.spares, m.layer_capacity) is Some,
    ensures
        ({
            let t = track as int;
            let after = m.applied(Command::StartRecord { track, at }).tracks[t];
            let compensated = m.in_index - m.latency_of(t);
            &&& after.layers == m.tracks[t].layers
            &&& after.take == m.tracks[t].take
            &&& after.loop_len == m.tracks[t].loop_len
            &&& after.pending matches Some(pending) && pending.defines_loop && pending.start >= at
                && pending.start >= compensated && (pending.start == at || pending.start
                == compensated) && pending.buffer == spare_of(m.spares, m.layer_capacity)->0
        }),
{
}

/// Stopping a take fixes where it ends and keeps what it recorded: a loop gets the length that was
/// played, never more than its buffer holds, and a further layer leaves the loop as it is. A second
/// stop changes nothing.
pub proof fn a_stopped_take_ends_where_it_was_stopped(
    m: EngineModel,
    track: usize,
    at: u64,
    later: u64,
)
    requires
        track < m.tracks.len(),
        m.tracks[track as int].take matches Some(take) && take.end is None,
    ensures
        ({
            let before = m.tracks[track as int];
            let start = before.take->0.start;
            let after = m.applied(Command::StopRecord { track, at });
            let now = after.tracks[track as int];
            &&& now.layers == before.layers
            &&& now.origin == before.origin
            &&& now.take matches Some(take) && take.start == start && take.defines_loop
                == before.take->0.defines_loop && take.end is Some
            &&& start <= at <= before.limit() ==> now.take->0.end == Some(at)
            &&& at < start ==> now.take->0.end == Some(start)
            &&& before.take->0.defines_loop && at > before.limit() && before.limit() >= start
                ==> now.take->0.end == Some(before.limit())
            &&& before.take->0.defines_loop && start <= at <= before.limit() ==> now.loop_len
                == at - start
            &&& !before.take->0.defines_loop ==> now.loop_len == before.loop_len
            &&& after.applied(Command::StopRecord { track, at: later }) == after
        }),
{
    let after = m.applied(Command::StopRecord { track, at });
    assert(after.applied(Command::StopRecord { track, at: later }).tracks =~= after.tracks);
}

/// A stop where nothing is recorded changes nothing.
pub proof fn a_stop_without_a_take_is_nothing(m: EngineModel, track: usize, at: u64)
    requires
        track < m.tracks.len(),
        m.tracks[track as int].take is None,
    ensures
        m.applied(Command::StopRecord { track, at }) == m,
{
    assert(m.applied(Command::StopRecord { track, at }).tracks =~= m.tracks);
}

/// A tempo that can be counted is taken over by an idle engine, with its metre and the length of its
/// buffers; the stock is of the old length and goes back.
pub proof fn an_idle_engine_takes_a_tempo(
    m: EngineModel,
    bpm: Bpm,
    signature: TimeSignature,
    layer_capacity: u64,
)
    requires
        !m.occupied(),
        tempo_error(m.timeline.rate() as u32, bpm, signature) is None,
    ensures
        ({
            let after = m.applied(Command::SetTempo { bpm, signature, layer_capacity });
            &&& after.timeline == m.timeline.retimed(bpm, signature)
            &&& after.layer_capacity == layer_capacity
            &&& after.spares.len() == 0
            &&& after.returned.len() == m.returned.len() + m.spares.len()
            &&& forall|i: int| #![trigger m.spares[i]]
                0 <= i < m.spares.len() ==> after.returned.contains(m.spares[i])
            &&& after.tracks == m.tracks
            &&& after.ignored_commands == m.ignored_commands
        }),
{
    let after = m.applied(Command::SetTempo { bpm, signature, layer_capacity });
    assert forall|i: int| #![trigger m.spares[i]] 0 <= i < m.spares.len() implies
        after.returned.contains(m.spares[i]) by {
        let at = m.returned.len() + m.spares.len() - 1 - i;
        assert(after.returned[at] == m.spares[i]);
    }
}

/// A take gets the newest buffer that is long enough, and one is found exactly where there is one.
/// Every other buffer stays in the stock or goes back; none is lost and none appears.
pub proof fn a_take_gets_a_buffer_that_fits(spares: Seq<Seq<u32>>, capacity: u64, i: int)
    requires
        0 <= i < spares.len(),
    ensures
        spares[i].len() >= capacity ==> spare_of(spares, capacity) is Some,
        spare_of(spares, capacity) matches Some(buffer) ==> buffer.len() >= capacity
            && spares.contains(buffer),
        spare_of(spares, capacity) is Some ==> spares_left(spares, capacity).len() + 1 + too_short(
            spares,
            capacity,
        ).len() == spares.len(),
        spare_of(spares, capacity) is None ==> spares_left(spares, capacity).len() == 0
            && too_short(spares, capacity).len() == spares.len(),
        i < spares_left(spares, capacity).len() ==> spares_left(spares, capacity)[i] == spares[i],
        i == spares_left(spares, capacity).len() && spare_of(spares, capacity) is Some ==> Some(
            spares[i],
        ) == spare_of(spares, capacity),
        i > spares_left(spares, capacity).len() ==> spares[i].len() < capacity && too_short(
            spares,
            capacity,
        )[spares.len() - 1 - i] == spares[i],
    decreases spares.len(),
{
    if spares.last().len() >= capacity {
        assert(spares.contains(spares.last()));
    } else {
        let fewer = spares.drop_last();
        if fewer.len() > 0 {
            let k = if i < fewer.len() {
                i
            } else {
                0
            };
            a_take_gets_a_buffer_that_fits(fewer, capacity, k);
            if let Some(buffer) = spare_of(fewer, capacity) {
                let at = choose|at: int| 0 <= at < fewer.len() && fewer[at] == buffer;
                assert(spares[at] == buffer);
            }
        }
    }
}

/// The level of a block is that of its loudest sample: none is louder, and one of them is that loud.
pub proof fn the_loudest_sample_is_in_the_block(output: Seq<u32>, i: int)
    requires
        0 <= i < output.len(),
        !(Single { bits: output[i] }).nan(),
    ensures
        (Single { bits: output[i] }).unsigned().le(loudest(output)),
        loudest(output).bits == 0 || exists|k: int|
            0 <= k < output.len() && (#[trigger] output[k]) % SIGN == loudest(output).bits,
    decreases output.len(),
{
    lemma_loudest_is_a_number(output);
    lemma_loudest_is_one_of_them(output);
    lemma_loudest_covers(output, i);
}

proof fn lemma_loudest_is_a_number(output: Seq<u32>)
    ensures
        !loudest(output).nan(),
    decreases output.len(),
{
    if output.len() > 0 {
        lemma_loudest_is_a_number(output.drop_last());
    }
}

proof fn lemma_loudest_covers(output: Seq<u32>, i: int)
    requires
        0 <= i < output.len(),
        !(Single { bits: output[i] }).nan(),
    ensures
        (Single { bits: output[i] }).unsigned().le(loudest(output)),
    decreases output.len(),
{
    lemma_loudest_is_a_number(output.drop_last());
    if i < output.len() - 1 {
        lemma_loudest_covers(output.drop_last(), i);
    }
}

proof fn lemma_loudest_is_one_of_them(output: Seq<u32>)
    ensures
        loudest(output).bits == 0 || exists|k: int|
            0 <= k < output.len() && (#[trigger] output[k]) % SIGN == loudest(output).bits,
    decreases output.len(),
{
    if output.len() > 0 {
        let fewer = output.drop_last();
        lemma_loudest_is_one_of_them(fewer);
        let magnitude = (Single { bits: output.last() }).unsigned();
        if loudest(fewer).lt(magnitude) {
            let k = output.len() - 1;
            assert(output[k] % SIGN == loudest(output).bits);
        } else if loudest(output).bits != 0 {
            let k = choose|k: int|
                0 <= k < fewer.len() && (#[trigger] fewer[k]) % SIGN == loudest(fewer).bits;
            assert(output[k] % SIGN == loudest(output).bits);
        }
    }
}

/// What leaves the engine never exceeds full scale, and what lies within is not touched.
pub proof fn the_output_stays_within_full_scale(sample: u32)
    ensures
        ({
            let before = Single { bits: sample };
            let after = Single { bits: limited(sample) };
            let least = Single { bits: 0xbf80_0000 };
            let most = Single { bits: 0x3f80_0000 };
            &&& !before.nan() ==> least.le(after) && after.le(most)
            &&& least.le(before) && before.le(most) ==> after == before
            &&& before.lt(least) ==> after == least
            &&& most.lt(before) ==> after == most
        }),
{
}

/// The input meter rises to a louder sample and never falls, whether a take runs or not.
pub proof fn the_input_meter_holds_the_loudest(
    track: TrackModel,
    pos: Option<u64>,
    sample: u32,
)
    requires
        track.take is None || pos is None,
        !track.input_peak.nan(),
    ensures
        ({
            let peak = sample_fed(track, pos, sample).track.input_peak;
            let level = (Single { bits: sample }).unsigned();
            &&& track.input_peak.le(peak)
            &&& !level.nan() ==> level.le(peak)
            &&& peak == track.input_peak || peak == level
        }),
{
}

/// A snapshot starts the meters anew and leaves the music alone.
pub proof fn a_snapshot_only_resets_the_meters(m: EngineModel, s: Status, t: int)
    requires
        0 <= t < m.tracks.len(),
    ensures
        ({
            let after = m.after_snapshot(s);
            &&& after.tracks.len() == m.tracks.len()
            &&& after.tracks[t].input_peak.bits == 0
            &&& after.tracks[t].output_peak.bits == 0
            &&& after.tracks[t].reduction_db.bits == 0
            &&& after.output_peak.bits == 0
            &&& after.since_status == 0
            &&& after.offered == m.offered.push(s)
            &&& after.tracks[t].layers == m.tracks[t].layers
            &&& after.tracks[t].take == m.tracks[t].take
            &&& after.tracks[t].pending == m.tracks[t].pending
            &&& after.tracks[t].playing == m.tracks[t].playing
            &&& after.tracks[t].monitor == m.tracks[t].monitor
            &&& after.tracks[t].mix == m.tracks[t].mix
            &&& after.tracks[t].chain == m.tracks[t].chain
            &&& after.tracks[t].loop_len == m.tracks[t].loop_len
            &&& after.tracks[t].origin == m.tracks[t].origin
            &&& after.timeline == m.timeline
            &&& after.out_pos == m.out_pos
            &&& after.in_index == m.in_index
            &&& after.spares == m.spares
            &&& after.scheduled == m.scheduled
        }),
{
}

/// A block moves both axes by what it produced and consumed, so the distance between them only
/// changes where the two differ.
pub proof fn the_axes_move_together(m: EngineModel, produced: int, consumed: int)
    requires
        0 <= produced,
        0 <= consumed,
        m.out_pos + produced <= u64::MAX,
        m.in_index + consumed <= u64::MAX,
        m.since_status + produced <= u64::MAX,
    ensures
        m.advanced(produced, consumed).out_pos - m.out_pos == produced,
        m.advanced(produced, consumed).in_index - m.in_index == consumed,
        m.advanced(produced, consumed).since_status - m.since_status == produced,
        m.advanced(produced, consumed).tracks == m.tracks,
{
}

/// The sample that ends a take opens the one queued behind it: a queued loop replaces the layers, and
/// they go back; a queued layer joins them.
pub proof fn a_queued_take_follows_at_once(track: TrackModel, end: u64, i: int)
    requires
        track.take is Some,
        track.pending is Some,
    ensures
        ({
            let r = take_closed(track, end);
            let pending = track.pending->0;
            &&& pending.defines_loop ==> {
                &&& r.track.layers.len() == 1
                &&& r.track.layers[0].samples == pending.buffer
                &&& r.track.take matches Some(take) && take.start == pending.start
                    && take.defines_loop && take.end is None
                &&& r.track.origin == pending.start
                &&& r.track.pending is None
                &&& r.returned.len() == track.layers.len()
                &&& 0 <= i < track.layers.len() ==> r.returned[track.layers.len() - 1 - i]
                    == track.layers[i].samples
            }
            &&& !pending.defines_loop && track.layers.len() < MAX_LAYERS ==> {
                &&& r.track.layers.len() == track.layers.len() + 1
                &&& r.track.layers.last().samples == pending.buffer
                &&& 0 <= i < track.layers.len() ==> r.track.layers[i] == track.layers[i]
                &&& r.track.take matches Some(take) && take.start == pending.start
                    && !take.defines_loop && take.end is None
                &&& r.track.origin == track.origin
                &&& r.track.pending is None
                &&& r.returned.len() == 0
                &&& r.refused == 0
            }
            &&& !pending.defines_loop && track.layers.len() >= MAX_LAYERS ==> {
                &&& r.track.layers == track.layers
                &&& r.track.take is None
                &&& r.track.pending is None
                &&& r.returned == seq![pending.buffer]
                &&& r.refused == 1
            }
        }),
{
}

/// A take ends with the sample at its end: from there on nothing more of the input goes into it, and
/// a loop that was never stopped is as long as what was recorded.
pub proof fn a_take_ends_at_its_end(track: TrackModel, pos: u64, sample: u32)
    requires
        track.take matches Some(take) && take.start <= pos,
        track.pending is None,
        track.take->0.end matches Some(end) ==> pos >= end,
        track.take->0.end is None ==> pos >= track.limit(),
    ensures
        ({
            let after = sample_fed(track, Some(pos), sample).track;
            &&& after.take is None
            &&& after.layers == track.layers
            &&& after.filled == 0
            &&& track.take->0.end is Some ==> after.loop_len == track.loop_len
            &&& track.take->0.end is None && track.take->0.defines_loop && track.limit()
                >= track.take->0.start ==> after.loop_len == track.limit() - track.take->0.start
        }),
{
}

/// Before its start a take records nothing, and without a take nothing is recorded at all.
pub proof fn nothing_is_recorded_outside_a_take(track: TrackModel, pos: u64, sample: u32)
    requires
        track.take matches Some(take) ==> pos < take.start,
    ensures
        sample_fed(track, Some(pos), sample).track.layers == track.layers,
        sample_fed(track, Some(pos), sample).track.take == track.take,
        sample_fed(track, Some(pos), sample).returned.len() == 0,
        sample_fed(track, Some(pos), sample).refused == 0,
{
}

/// What an effect command sets is set on the chain, and nothing beside it.
pub proof fn a_chain_is_what_was_set(before: Chain, after: Chain, cmd: Command)
    requires
        before.wf(),
        chain_changed(before, after, cmd),
    ensures
        cmd matches Command::SetFxBypass { on, .. } ==> after.spec_bypass() == on && after.knobs()
            == before.knobs() && after.spec_preset() == before.spec_preset(),
        cmd matches Command::SetFxEnabled { slot, on, .. } ==> after.knobs().enabled[slot.place()]
            == on && (forall|other: FxSlot|
            other != slot ==> #[trigger] after.knobs().enabled[other.place()]
                == before.knobs().enabled[other.place()]) && after.spec_bypass()
            == before.spec_bypass() && after.knobs().bands == before.knobs().bands
            && after.knobs().comp == before.knobs().comp && after.knobs().high_pass_hz
            == before.knobs().high_pass_hz,
        cmd matches Command::SetFxEnabled { slot, on, .. } ==> (after.spec_preset()
            == FxPreset::Custom || (after.spec_preset() == before.spec_preset()
            && before.knobs().enabled[slot.place()] == on)),
        cmd matches Command::SetFxParam { .. } ==> after.spec_preset() == FxPreset::Custom
            && after.spec_bypass() == before.spec_bypass() && after.knobs().enabled
            == before.knobs().enabled,
        cmd matches Command::LoadFxPreset { preset, .. } ==> after.spec_preset() == preset
            && after.knobs() == preset_knobs(preset) && (after.spec_bypass() <==> preset
            == FxPreset::Dry),
{
}

/// What a snapshot shows of the mix of a track is what was commanded last.
pub proof fn a_snapshot_shows_what_was_set(
    m: EngineModel,
    cmd: Command,
    s: Status,
    track: usize,
)
    requires
        track < m.tracks.len(),
        m.applied(cmd).shown_by(s),
    ensures
        cmd matches Command::SetMonitor { track: t, on } ==> t == track
            ==> s.tracks@[track as int].monitor == on,
        cmd matches Command::SetPan { track: t, pan } ==> t == track
            ==> s.tracks@[track as int].pan == pan,
        cmd matches Command::SetTrackSend { track: t, source, send } ==> t == track && source
            == TrackSource::Loop ==> s.tracks@[track as int].loop_send == send,
        cmd matches Command::SetTrackSend { track: t, source, send } ==> t == track && source
            == TrackSource::Monitor ==> s.tracks@[track as int].monitor_send == send,
        cmd matches Command::StartPlay { track: t, .. } ==> t == track
            ==> s.tracks@[track as int].playing,
        cmd matches Command::StopPlay { track: t, .. } ==> t == track
            ==> !s.tracks@[track as int].playing,
        cmd matches Command::ClearTrack { track: t, .. } ==> t == track
            ==> s.tracks@[track as int].state == TrackState::Empty && s.tracks@[track as int].layers
            == 0,
        cmd is ClearAll ==> s.tracks@[track as int].state == TrackState::Empty
            && s.tracks@[track as int].layers == 0,
{
    let after = m.applied(cmd);
    if after.tracks.len() == m.tracks.len() {
        assert(track_shown_by(
            after.tracks[track as int],
            after.input_now(track as int),
            s.tracks@[track as int],
        ));
    }
}

/// What a snapshot shows of the engine is what was commanded last.
pub proof fn a_snapshot_shows_the_switches(m: EngineModel, cmd: Command, s: Status)
    requires
        m.applied(cmd).shown_by(s),
    ensures
        cmd matches Command::SetClick { on } ==> s.click == on,
        cmd matches Command::SetBusGain { bus, gain } ==> bus == Bus::Main ==> s.main_gain == gain,
        cmd matches Command::SetBusGain { bus, gain } ==> bus == Bus::Monitor ==> s.monitor_gain
            == gain,
        cmd is Stop ==> s.stopped,
        s.pos == m.out_pos,
        s.track_count == m.tracks.len(),
        s.output_channels == m.output_channels,
{
}

/// A snapshot tells where the music is: its bar, its beat in that bar and the samples into that beat
/// are those of the engine's position, and put together they are that position.
pub proof fn a_snapshot_tells_the_time(m: EngineModel, s: Status)
    requires
        m.wf(),
        m.shown_by(s),
    ensures
        s.pos == m.out_pos,
        m.timeline.beat_at(s.bar * m.timeline.per_bar() + s.beat) + s.beat_offset == s.pos,
        s.beat < m.timeline.per_bar(),
        m.timeline.bar_at(s.bar as int) <= s.pos < m.timeline.bar_at(s.bar + 1),
        s.bpm == m.timeline.tempo(),
{
    a_located_position_is_that_position(m.timeline, m.out_pos as int);
    a_position_lies_in_its_bar(m.timeline, m.out_pos as int);
}

/// A snapshot shows each track as it is: what it does, what it holds, how loud it is and how it is
/// set.
pub proof fn a_snapshot_shows_each_track(m: EngineModel, s: Status, t: int)
    requires
        m.shown_by(s),
        0 <= t < m.tracks.len(),
    ensures
        ({
            let track = m.tracks[t];
            let seen = s.tracks@[t];
            &&& seen.state == track.state_at(m.input_now(t))
            &&& seen.layers == track.layers.len()
            &&& seen.loop_len == track.loop_len
            &&& seen.origin == track.origin
            &&& seen.filled == track.filled
            &&& seen.input_peak@[0] == track.input_peak
            &&& seen.output_peak@[0] == track.output_peak
            &&& seen.output_peak@[1] == track.output_peak
            &&& seen.monitor == track.monitor
            &&& seen.playing == track.playing
            &&& seen.pan == track.mix.pan
            &&& seen.loop_send == track.mix.loop_send
            &&& seen.monitor_send == track.mix.monitor_send
            &&& seen.fx.bypass == track.chain.spec_bypass()
            &&& seen.fx.preset == track.chain.spec_preset()
            &&& seen.fx.settings@ == track.chain.knobs()
            &&& seen.fx.delay_samples == track.chain.tap().target()
            &&& seen.fx.reduction_db == track.reduction_db
            &&& track.input_channel <= 255 ==> seen.input_channels@[0] == track.input_channel
        }),
{
    assert(track_shown_by(m.tracks[t], m.input_now(t), s.tracks@[t]));
}

/// A mute that a snapshot shows is the mute of that layer.
pub proof fn a_snapshot_shows_each_mute(m: EngineModel, s: Status, t: int, layer: int)
    requires
        m.shown_by(s),
        0 <= t < m.tracks.len(),
        0 <= layer < m.tracks[t].layers.len(),
    ensures
        mask_bit(s.tracks@[t].muted_mask as nat, layer as nat) == m.tracks[t].layers[layer].muted,
{
    assert(track_shown_by(m.tracks[t], m.input_now(t), s.tracks@[t]));
    the_mask_shows_every_layer(m.tracks[t].layers, layer);
}

/// The musical position of the next input frame is the input axis less the compensation, and zero
/// before that has passed.
pub proof fn the_input_trails_by_the_compensation(m: EngineModel, t: int)
    requires
        0 <= m.latency_of(t),
    ensures
        m.in_index >= m.latency_of(t) ==> m.input_now(t) == m.in_index - m.latency_of(t),
        m.in_index < m.latency_of(t) ==> m.input_now(t) == 0,
{
}

/// A snapshot that is handed out stands last in the queue, and only a queue without a free slot loses
/// it.
pub proof fn a_snapshot_is_lost_only_where_there_is_no_room(
    m: EngineModel,
    s: Status,
    published: Seq<Status>,
    room: nat,
)
    requires
        m.handed_out(s, published, room),
    ensures
        m.status_room > 0 ==> published == m.published.push(s) && room == m.status_room - 1,
        published != m.published.push(s) ==> published == m.published && room == 0,
{
}

/// A meter only rises between snapshots: it shows at least what it was told, and never falls. No
/// other track is touched.
pub proof fn a_meter_holds_the_highest(m: EngineModel, t: int, magnitude: Single)
    requires
        0 <= t < m.tracks.len(),
        !magnitude.nan(),
        !m.tracks[t].output_peak.nan(),
    ensures
        ({
            let after = m.peak_noted(t, magnitude);
            &&& magnitude.le(after.tracks[t].output_peak)
            &&& m.tracks[t].output_peak.le(after.tracks[t].output_peak)
            &&& after.tracks[t].output_peak == magnitude || after.tracks[t].output_peak
                == m.tracks[t].output_peak
            &&& after.tracks[t].input_peak == m.tracks[t].input_peak
            &&& after.tracks[t].layers == m.tracks[t].layers
            &&& forall|u: int|
                0 <= u < m.tracks.len() && u != t ==> after.tracks[u] == #[trigger] m.tracks[u]
        }),
{
}

/// The reduction that is shown is the deepest since the last snapshot.
pub proof fn the_deepest_reduction_is_shown(m: EngineModel, t: int, db: Single)
    requires
        0 <= t < m.tracks.len(),
        !db.nan(),
        !m.tracks[t].reduction_db.nan(),
    ensures
        ({
            let after = m.reduction_noted(t, db);
            &&& after.tracks[t].reduction_db.le(db)
            &&& after.tracks[t].reduction_db.le(m.tracks[t].reduction_db)
            &&& after.tracks[t].reduction_db == db || after.tracks[t].reduction_db
                == m.tracks[t].reduction_db
            &&& after.tracks[t].output_peak == m.tracks[t].output_peak
            &&& forall|u: int|
                0 <= u < m.tracks.len() && u != t ==> after.tracks[u] == #[trigger] m.tracks[u]
        }),
{
}

/// A level for a track that does not exist changes nothing.
pub proof fn no_track_has_no_meter(m: EngineModel, t: int, level: Single)
    requires
        t >= m.tracks.len(),
    ensures
        m.peak_noted(t, level) == m,
        m.reduction_noted(t, level) == m,
{
}

/// Snapshots keep to their interval: none comes before it is over, one comes when it is, and the
/// frames are counted from there again.
pub proof fn snapshots_keep_to_their_interval(before: EngineModel, after: EngineModel, frames: nat)
    requires
        before.block_told(after, frames),
        before.since_status < before.status_interval,
    ensures
        after.offered.len() > before.offered.len() <==> before.since_status + frames
            >= before.status_interval,
        after.offered.len() <= before.offered.len() + 1,
        before.status_interval >= 1 ==> after.since_status < before.status_interval,
        after.offered == before.offered ==> after.since_status == before.since_status + frames,
{
}

/// The chain of a track follows the tempo with its delay and with nothing else.
pub proof fn a_tempo_moves_only_the_delay(before: TrackModel, after: TrackModel, bpm: Bpm)
    requires
        track_tuned(before, after, bpm),
    ensures
        after.chain.tap().spec_tempo() == Some(bpm),
        after.chain.tap().spec_note() == before.chain.tap().spec_note(),
        after.chain.knobs() == before.chain.knobs(),
        after.chain.spec_bypass() == before.chain.spec_bypass(),
        after.layers == before.layers,
        after.take == before.take,
        after.mix == before.mix,
        after.playing == before.playing,
{
}

} // verus!
