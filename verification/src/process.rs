//! The brain of the audio thread: what an input block and a command queue do to the musical state.
//!
//! Rendering is arithmetic on samples and lives with the audio code; everything that decides *when*
//! something happens and *where* a sample is stored is here.
//!
//! # The two axes
//!
//! Input and output are two streams, so the engine counts two things:
//!
//! * `out_pos` - the musical timeline, one per produced output frame. Bars, beats, the click and
//!   every command timestamp live on this axis.
//! * `in_index` - how many input frames have been consumed. Nothing is ever dropped from the input,
//!   so consumed frame number `k` is input frame number `k` of the session.
//!
//! # Latency compensation
//!
//! A sample written to the output at position `P` comes back at input index `P + R`. A musician who
//! plays on beat `B` plays to what they hear, so the input frame that carries their note has index
//! `B + R`. Turned around, the frame at input index `k` was played at musical position
//!
//! ```text
//! m = k - R
//! ```
//!
//! and that is where it is stored. Playback needs no correction: the loop reaches the ears through
//! the same output path as the click.
//!
//! # Buffers
//!
//! Layer buffers arrive ready-made from the control thread and go back the same way. Every buffer
//! that came in is a spare, a layer, the buffer of a waiting take, or has been given back.
use vstd::prelude::*;
use crate::bus::{Bus, BusRouting, TrackSource};
use crate::command::{
    lemma_nothing_sent_back,
    lemma_sent_back_again,
    sent_back,
    BufferEndpoint,
    Command,
    CommandReceiver,
    Refusal,
    Status,
    StatusSender,
    TrackStatus,
    MAX_TRACKS,
};
use crate::fx::Chain;
use crate::model::{
    acts_on_chain,
    all_held,
    all_held_back,
    as_started,
    chain_changed,
    track_tuned,
    cleared,
    counted_by,
    ended_at,
    held,
    held_back,
    lemma_newest_goes_first,
    lemma_total_buffers_update,
    limited,
    loudest,
    meters_at_rest,
    newest_first,
    sample_fed,
    spare_of,
    spares_left,
    stopped,
    take_closed,
    too_short,
    total_buffers,
    track_shown_by,
    without_takes,
    written_into_take,
    EngineModel,
    Links,
    MAX_LATENCY,
    MINUS_ONE,
    Source,
};
use crate::queue::first_of;
use crate::single::Single;
use crate::timeline::{Bpm, TimeSignature, Timeline, MAX_BEAT};
use crate::track::{Mix, Track, TrackModel, MAX_LAYERS, UNITY};
use crate::waiting::{
    acts_first,
    due_first,
    next_due,
    nothing_due_is_left_behind,
    SCHEDULED_SLOTS,
};

verus! {

broadcast use {lemma_nothing_sent_back, lemma_sent_back_again};

/// Everything the engine needs to exist. Assembled by the control thread.
pub struct EngineConfig {
    pub timeline: Timeline,
    /// Roundtrip latency in frames.
    pub latency_samples: u64,
    /// Number of channels in one interleaved input frame.
    pub input_channels: usize,
    /// The tracks, with their input channels.
    pub tracks: Vec<Track>,
    /// How many prepared buffers the engine keeps.
    pub spare_slots: usize,
    /// Length a layer buffer must have to be usable.
    pub layer_capacity: u64,
    pub commands: CommandReceiver,
    pub status: StatusSender,
    pub buffers: BufferEndpoint,
    pub click: bool,
    pub main_gain: Single,
    pub monitor_gain: Single,
    pub routing: BusRouting,
    pub output_channels: usize,
    /// How often a status snapshot is pushed, in frames.
    pub status_interval: u64,
}

/// The musical state of the audio thread.
pub struct EngineCore {
    timeline: Timeline,
    latency: u64,
    /// Musical timeline position of the next output frame.
    out_pos: u64,
    /// Number of input frames consumed so far; also the absolute index of the next one.
    in_index: u64,
    input_channels: usize,
    tracks: Vec<Track>,
    /// Prepared, zeroed buffers waiting to become layers.
    spares: Vec<Vec<u32>>,
    spare_slots: usize,
    layer_capacity: u64,
    click: bool,
    main_gain: Single,
    monitor_gain: Single,
    routing: BusRouting,
    output_channels: usize,
    commands: CommandReceiver,
    /// Commands taken out of the queue but not executed yet.
    scheduled: Vec<Command>,
    status: StatusSender,
    buffers: BufferEndpoint,
    status_interval: u64,
    since_status: u64,
    output_peak: Single,
    ignored_commands: u64,
    refusal: Refusal,
    buffers_taken: u64,
    stopped: bool,
}

pub open spec fn track_models(tracks: Seq<Track>) -> Seq<TrackModel> {
    tracks.map_values(|track: Track| track@)
}

pub open spec fn contents(buffers: Seq<Vec<u32>>) -> Seq<Seq<u32>> {
    buffers.map_values(|buffer: Vec<u32>| buffer@)
}

impl View for EngineCore {
    type V = EngineModel;

    closed spec fn view(&self) -> EngineModel {
        EngineModel {
            timeline: self.timeline,
            latency: self.latency,
            out_pos: self.out_pos,
            in_index: self.in_index,
            input_channels: self.input_channels,
            tracks: track_models(self.tracks@),
            spares: contents(self.spares@),
            spare_slots: self.spare_slots,
            layer_capacity: self.layer_capacity,
            click: self.click,
            scheduled: self.scheduled@,
            links: Links {
                commands: self.commands.queue(),
                statuses: self.status.queue(),
                buffers: self.buffers.queue(),
                returns: self.buffers.return_queue(),
            },
            announced: self.commands.waiting(),
            collected: self.commands.taken(),
            main_gain: self.main_gain,
            monitor_gain: self.monitor_gain,
            routing: self.routing@,
            output_channels: self.output_channels,
            status_interval: self.status_interval,
            since_status: self.since_status,
            output_peak: self.output_peak,
            ignored_commands: self.ignored_commands,
            refusal: self.refusal,
            buffers_taken: self.buffers_taken,
            stopped: self.stopped,
            delivered: self.buffers.waiting(),
            arrived: self.buffers.taken(),
            returned: self.buffers.returned(),
            offered: self.status.offered(),
            published: self.status.sent(),
            status_room: self.status.room(),
        }
    }
}

impl EngineCore {
    pub open spec fn wf(self) -> bool {
        self@.wf()
    }

    /// What the buffers held that are in the queue back to the control thread or came out of it,
    /// oldest first.
    pub closed spec fn given_back(self) -> Seq<Seq<u32>> {
        self.buffers.given_back()
    }

    /// How many buffers are certain to find room on their way back to the control thread.
    pub closed spec fn return_room(self) -> nat {
        self.buffers.room()
    }

    pub fn new(cfg: EngineConfig) -> (r: Self)
        requires
            cfg.tracks@.len() <= MAX_TRACKS,
            forall|t: int| 0 <= t < cfg.tracks@.len() ==> (#[trigger] cfg.tracks@[t]).wf(),
            total_buffers(track_models(cfg.tracks@)) == 0,
            cfg.latency_samples <= MAX_LATENCY,
            cfg.buffers.received() == cfg.buffers.returned().len(),
        ensures
            r.wf(),
            r@.timeline == cfg.timeline,
            r@.latency == cfg.latency_samples,
            r@.out_pos == 0,
            r@.in_index == 0,
            r@.input_channels == (if cfg.input_channels >= 1 {
                cfg.input_channels
            } else {
                1
            }),
            r@.tracks == track_models(cfg.tracks@),
            r@.spares == Seq::<Seq<u32>>::empty(),
            r@.spare_slots == cfg.spare_slots,
            r@.layer_capacity == cfg.layer_capacity,
            r@.click == cfg.click,
            r@.scheduled == Seq::<Command>::empty(),
            r@.links == (Links {
                commands: cfg.commands.queue(),
                statuses: cfg.status.queue(),
                buffers: cfg.buffers.queue(),
                returns: cfg.buffers.return_queue(),
            }),
            r@.announced == cfg.commands.waiting(),
            r@.collected == cfg.commands.taken(),
            r@.delivered == cfg.buffers.waiting(),
            r@.arrived == cfg.buffers.taken(),
            r@.main_gain == cfg.main_gain,
            r@.monitor_gain == cfg.monitor_gain,
            r@.routing == cfg.routing@,
            r@.output_channels == cfg.output_channels,
            r@.status_interval == (if cfg.status_interval >= 1 {
                cfg.status_interval
            } else {
                1
            }),
            r@.since_status == 0,
            r@.output_peak == (Single { bits: 0 }),
            r@.ignored_commands == 0,
            r@.refusal == Refusal::Nothing,
            r@.buffers_taken == 0,
            !r@.stopped,
            r@.offered == cfg.status.offered(),
            r@.published == cfg.status.sent(),
            r@.status_room == cfg.status.room(),
            r@.returned == cfg.buffers.returned(),
            r.return_room() == cfg.buffers.room(),
    {
        proof {
            use_type_invariant(&cfg.timeline);
        }
        let r = EngineCore {
            timeline: cfg.timeline,
            latency: cfg.latency_samples,
            out_pos: 0,
            in_index: 0,
            input_channels: if cfg.input_channels >= 1 {
                cfg.input_channels
            } else {
                1
            },
            tracks: cfg.tracks,
            spares: Vec::new(),
            spare_slots: cfg.spare_slots,
            layer_capacity: cfg.layer_capacity,
            click: cfg.click,
            main_gain: cfg.main_gain,
            monitor_gain: cfg.monitor_gain,
            routing: cfg.routing,
            output_channels: cfg.output_channels,
            commands: cfg.commands,
            scheduled: Vec::new(),
            status: cfg.status,
            buffers: cfg.buffers,
            status_interval: if cfg.status_interval >= 1 {
                cfg.status_interval
            } else {
                1
            },
            since_status: 0,
            output_peak: Single { bits: 0 },
            ignored_commands: 0,
            refusal: Refusal::Nothing,
            buffers_taken: 0,
            stopped: false,
        };
        assert(r@.spares =~= Seq::<Seq<u32>>::empty());
        assert(r@.scheduled =~= Seq::<Command>::empty());
        r
    }

    fn refuse(&mut self, reason: Refusal)
        requires
            old(self).wf(),
        ensures
            final(self).wf(),
            final(self)@ == old(self)@.refused(reason),
            sent_back(old(self).buffers, final(self).buffers),
    {
        self.ignored_commands = self.ignored_commands.saturating_add(1);
        self.refusal = reason;
        assert(self@ =~= old(self)@.refused(reason));
    }

    /// One prepared buffer, or `None` if the stock ran dry. Buffers of the wrong length (left over
    /// from a tempo change) are sent back instead of being used. The buffer that is handed out is
    /// not accounted for until the caller has found a place for it.
    fn take_spare(&mut self) -> (r: Option<Vec<u32>>)
        requires
            old(self).wf(),
        ensures
            (match r {
                Some(buffer) => Some(buffer@),
                None => None,
            }) == spare_of(old(self)@.spares, old(self)@.layer_capacity),
            final(self)@ == old(self)@.spare_asked(),
            final(self)@.arrived.len() == final(self)@.returned.len() + final(self)@.spares.len()
                + total_buffers(final(self)@.tracks) + (if r is Some {
                1int
            } else {
                0int
            }),
            final(self)@.spares.len() <= final(self)@.spare_slots,
            sent_back(old(self).buffers, final(self).buffers),
    {
        let ghost start = self@;
        while self.spares.len() > 0
            invariant
                sent_back(old(self).buffers, self.buffers),
                start == old(self)@,
                start.wf(),
                spare_of(self@.spares, self@.layer_capacity) == spare_of(
                    start.spares,
                    start.layer_capacity,
                ),
                spares_left(self@.spares, self@.layer_capacity) == spares_left(
                    start.spares,
                    start.layer_capacity,
                ),
                self@.spares.len() <= start.spares.len(),
                self@.returned + too_short(self@.spares, self@.layer_capacity) == start.returned
                    + too_short(start.spares, start.layer_capacity),
                self@.returned.len() + self@.spares.len() == start.returned.len()
                    + start.spares.len(),
                self@ == (EngineModel {
                    spares: self@.spares,
                    returned: self@.returned,
                    ..start
                }),
            decreases self.spares.len(),
        {
            let ghost before = self.spares@;
            let ghost model = self@;
            assert(contents(before).last() == before.last()@);
            match self.spares.pop() {
                Some(buffer) => {
                    assert(contents(self.spares@) =~= contents(before).drop_last());
                    if buffer.len() as u64 >= self.layer_capacity {
                        assert(self@.returned =~= start.spare_asked().returned);
                        assert(self@ =~= start.spare_asked());
                        return Some(buffer);
                    }
                    let ghost rest = too_short(self@.spares, self@.layer_capacity);
                    assert(model.returned.push(buffer@) + rest =~= model.returned + (
                    seq![buffer@] + rest));
                    self.buffers.retire(buffer);
                    assert(self@ =~= (EngineModel {
                        spares: self@.spares,
                        returned: self@.returned,
                        ..start
                    }));
                },
                None => {},
            }
        }
        assert(self@.returned =~= start.spare_asked().returned);
        assert(self@ =~= start.spare_asked());
        None
    }
}

/// Whether the buffers an engine has sent back between two moments are on their way: as many as were
/// certain to find room are in the queue, in order, and where that is all of them, the room has
/// shrunk by their number.
pub open spec fn handed_back(before: EngineCore, after: EngineCore) -> bool {
    let left = after@.returned.skip(before@.returned.len() as int);
    &&& before@.returned.is_prefix_of(after@.returned)
    &&& before.given_back().is_prefix_of(after.given_back())
    &&& left.len() <= before.return_room() ==> after.given_back() == before.given_back() + left
        && after.return_room() == before.return_room() - left.len()
    &&& left.len() > before.return_room() ==> (before.given_back() + left.take(
        before.return_room() as int,
    )).is_prefix_of(after.given_back())
}

/// A list of tracks with one of them replaced, seen through its models.
proof fn lemma_models_update(tracks: Seq<Track>, t: int, track: Track)
    requires
        0 <= t < tracks.len(),
    ensures
        track_models(tracks.update(t, track)) == track_models(tracks).update(t, track@),
        track_models(tracks)[t] == tracks[t]@,
        track_models(tracks).len() == tracks.len(),
        total_buffers(track_models(tracks.update(t, track))) == total_buffers(track_models(tracks))
            - tracks[t]@.buffers() + track@.buffers(),
{
    assert(track_models(tracks.update(t, track)) =~= track_models(tracks).update(t, track@));
    lemma_total_buffers_update(track_models(tracks), t, track@);
}

impl EngineCore {
    /// Drop the running and the queued take of one track, returning the queued take's buffer.
    fn cancel_takes(&mut self, track: usize)
        requires
            old(self).wf(),
            track < old(self)@.tracks.len(),
        ensures
            final(self).wf(),
            final(self)@ == (EngineModel {
                returned: old(self)@.returned + held_back(old(self)@.tracks[track as int]),
                ..old(self)@.with_track(
                    track as int,
                    without_takes(old(self)@.tracks[track as int]),
                )
            }),
            sent_back(old(self).buffers, final(self).buffers),
    {
        let ghost start = self.tracks@;
        let ghost t = track as int;
        assert(self@.tracks[t] == start[t]@);
        self.tracks[track].cancel_take();
        let back: Option<Vec<u32>> = self.tracks[track].take_pending_buffer();
        proof {
            lemma_models_update(start, t, self.tracks@[t]);
            assert(self.tracks@ =~= start.update(t, self.tracks@[t]));
        }
        if let Some(buffer) = back {
            self.buffers.retire(buffer);
        }
        assert(self@.returned =~= old(self)@.returned + held_back(old(self)@.tracks[t]));
    }

    /// Cancel whatever this track is doing and give every one of its buffers back.
    fn clear_track(&mut self, track: usize)
        requires
            old(self).wf(),
            track < old(self)@.tracks.len(),
        ensures
            final(self).wf(),
            final(self)@ == old(self)@.track_cleared(track as int),
            sent_back(old(self).buffers, final(self).buffers),
    {
        let ghost t = track as int;
        let ghost start = self@;
        self.cancel_takes(track);
        let ghost list = self.tracks@;
        self.tracks[track].playing = false;
        proof {
            lemma_models_update(list, t, self.tracks@[t]);
            assert(self.tracks@ =~= list.update(t, self.tracks@[t]));
            assert(self@.returned + newest_first(start.tracks[t].layers) =~= start.returned + held(
                start.tracks[t],
            ));
        }
        loop
            invariant
                sent_back(old(self).buffers, self.buffers),
                start == old(self)@,
                start.wf(),
                t == track,
                0 <= t < start.tracks.len(),
                self.wf(),
                self@.tracks.len() == start.tracks.len(),
                ({
                    let now = self@.tracks[t];
                    let asked = without_takes(start.tracks[t]);
                    &&& now == (TrackModel {
                        playing: false,
                        layers: now.layers,
                        origin: now.origin,
                        loop_len: now.loop_len,
                        ..asked
                    })
                    &&& now.layers.len() <= asked.layers.len()
                    &&& self@.returned + newest_first(now.layers) == start.returned + held(
                        start.tracks[t],
                    )
                    &&& self@ == (EngineModel {
                        returned: self@.returned,
                        ..start.with_track(t, now)
                    })
                }),
            ensures
                self.wf(),
                self@ == start.track_cleared(t),
            decreases self@.tracks[t].layers.len(),
        {
            let ghost list = self.tracks@;
            let ghost before = self@;
            assert(self@.tracks[t] == list[t]@);
            match self.tracks[track].pop_layer() {
                Some(buffer) => {
                    proof {
                        lemma_models_update(list, t, self.tracks@[t]);
                        assert(self.tracks@ =~= list.update(t, self.tracks@[t]));
                        lemma_newest_goes_first(before.tracks[t].layers);
                        let rest = newest_first(self@.tracks[t].layers);
                        assert(before.returned.push(buffer@) + rest =~= before.returned + (
                        seq![buffer@] + rest));
                    }
                    self.buffers.retire(buffer);
                    assert(self@.tracks =~= start.tracks.update(t, self@.tracks[t]));
                },
                None => {
                    assert(self.tracks@ =~= list.update(t, self.tracks@[t]));
                    proof {
                        lemma_models_update(list, t, self.tracks@[t]);
                    }
                    assert(newest_first(before.tracks[t].layers) =~= Seq::<Seq<u32>>::empty());
                    assert(self@.returned =~= start.returned + held(start.tracks[t]));
                    assert(self@.tracks[t] =~= cleared(start.tracks[t]));
                    assert(self@.tracks =~= start.tracks.update(t, cleared(start.tracks[t])));
                    break;
                },
            }
        }
    }

    /// Take a prepared buffer and open a take with it, or report why that failed.
    fn begin_take(&mut self, track: usize, start: u64, defines_loop: bool)
        requires
            old(self).wf(),
            track < old(self)@.tracks.len(),
        ensures
            final(self).wf(),
            final(self)@ == old(self)@.begun(track as int, start, defines_loop),
            sent_back(old(self).buffers, final(self).buffers),
    {
        let ghost t = track as int;
        assert(self@.tracks[t] == self.tracks@[t]@);
        if self.tracks[track].layer_count() >= MAX_LAYERS {
            self.refuse(Refusal::LayerLimit);
            return;
        }
        match self.take_spare() {
            Some(buffer) => {
                let ghost list = self.tracks@;
                assert(self@.tracks[t] == list[t]@);
                if defines_loop {
                    self.tracks[track].begin_loop_take(start, buffer);
                } else {
                    self.tracks[track].begin_overdub_take(start, buffer);
                }
                proof {
                    lemma_models_update(list, t, self.tracks@[t]);
                    assert(self.tracks@ =~= list.update(t, self.tracks@[t]));
                }
            },
            None => {
                self.refuse(Refusal::NoBuffer);
            },
        }
    }

    /// Queue a take behind the one that is currently finishing.
    fn schedule_take(&mut self, track: usize, start: u64, defines_loop: bool)
        requires
            old(self).wf(),
            track < old(self)@.tracks.len(),
        ensures
            final(self).wf(),
            final(self)@ == old(self)@.queued(track as int, start, defines_loop),
            sent_back(old(self).buffers, final(self).buffers),
    {
        let ghost t = track as int;
        match self.take_spare() {
            Some(buffer) => {
                let ghost list = self.tracks@;
                assert(self@.tracks[t] == list[t]@);
                let previous: Option<Vec<u32>> = self.tracks[track].set_pending(
                    start,
                    defines_loop,
                    buffer,
                );
                proof {
                    lemma_models_update(list, t, self.tracks@[t]);
                    assert(self.tracks@ =~= list.update(t, self.tracks@[t]));
                }
                let ghost asked = self@;
                if let Some(previous) = previous {
                    self.buffers.retire(previous);
                }
                assert(self@.returned =~= asked.returned + held_back(old(self)@.tracks[t]));
            },
            None => {
                self.refuse(Refusal::NoBuffer);
            },
        }
    }
}

impl EngineCore {
    /// Musical position of the next input frame to be consumed on one track.
    fn musical_input_pos(&self, track: usize) -> (r: u64)
        requires
            self.wf(),
            track < self@.tracks.len(),
        ensures
            r == self@.input_now(track as int),
    {
        assert(self@.tracks[track as int] == self.tracks@[track as int]@);
        let latency: u64 = self.tracks[track].mix.latency.resolve(self.latency);
        if self.in_index >= latency {
            self.in_index - latency
        } else {
            0
        }
    }

    /// Where a take asked for at `at` can start.
    fn first_recordable(&self, track: usize, at: u64) -> (r: u64)
        requires
            self.wf(),
            track < self@.tracks.len(),
        ensures
            r == self@.earliest(track as int, at),
    {
        let now: u64 = self.musical_input_pos(track);
        if at >= now {
            at
        } else {
            now
        }
    }

    fn start_record(&mut self, track: usize, at: u64)
        requires
            old(self).wf(),
            track < old(self)@.tracks.len(),
        ensures
            final(self).wf(),
            final(self)@ == old(self)@.applied(Command::StartRecord { track, at }),
            sent_back(old(self).buffers, final(self).buffers),
    {
        assert(self@.tracks[track as int] == self.tracks@[track as int]@);
        let start: u64 = self.first_recordable(track, at);
        if self.tracks[track].take_is_finishing() {
            self.schedule_take(track, start, true);
        } else {
            self.clear_track(track);
            self.begin_take(track, start, true);
        }
    }

    fn start_overdub(&mut self, track: usize, at: u64)
        requires
            old(self).wf(),
            track < old(self)@.tracks.len(),
        ensures
            final(self).wf(),
            final(self)@ == old(self)@.applied(Command::StartOverdub { track, at }),
            sent_back(old(self).buffers, final(self).buffers),
    {
        assert(self@.tracks[track as int] == self.tracks@[track as int]@);
        let start: u64 = self.first_recordable(track, at);
        let finishing: bool = self.tracks[track].take_is_finishing();
        if self.tracks[track].take.is_some() && !finishing {
            self.refuse(Refusal::Busy);
            return;
        }
        let defines_loop: bool = !self.tracks[track].has_content();
        if !defines_loop && self.tracks[track].layer_count() >= MAX_LAYERS {
            self.refuse(Refusal::LayerLimit);
            return;
        }
        if finishing {
            self.schedule_take(track, start, defines_loop);
        } else {
            if defines_loop {
                self.clear_track(track);
            }
            self.begin_take(track, start, defines_loop);
        }
    }

    fn clear_all(&mut self)
        requires
            old(self).wf(),
        ensures
            final(self).wf(),
            final(self)@ == old(self)@.all_cleared(),
            sent_back(old(self).buffers, final(self).buffers),
    {
        let ghost start = self@;
        let count: usize = self.tracks.len();
        let mut track: usize = 0;
        assert(start.tracks.subrange(0, 0).len() == 0);
        assert(start.returned + Seq::<Seq<u32>>::empty() =~= start.returned);
        while track < count
            invariant
                sent_back(old(self).buffers, self.buffers),
                start == old(self)@,
                count == start.tracks.len(),
                track <= count,
                self.wf(),
                self@.tracks.len() == count,
                forall|i: int|
                    0 <= i < count ==> #[trigger] self@.tracks[i] == (if i < track {
                        as_started(start.tracks[i])
                    } else {
                        start.tracks[i]
                    }),
                self@ == (EngineModel {
                    tracks: self@.tracks,
                    returned: start.returned + all_held(start.tracks.subrange(0, track as int)),
                    ..start
                }),
            decreases count - track,
        {
            let ghost before = self@;
            self.clear_track(track);
            let ghost list = self.tracks@;
            let ghost t = track as int;
            assert(self@.tracks[t] == list[t]@);
            self.tracks[track].restore_defaults();
            proof {
                lemma_models_update(list, t, self.tracks@[t]);
                assert(self.tracks@ =~= list.update(t, self.tracks@[t]));
                let done = start.tracks.subrange(0, t + 1);
                assert(done.drop_last() =~= start.tracks.subrange(0, t));
                assert(done.last() == start.tracks[t]);
                assert(self@.returned =~= start.returned + all_held(done));
            }
            track = track + 1;
        }
        proof {
            assert(start.tracks.subrange(0, count as int) =~= start.tracks);
            assert(self@.tracks =~= start.all_cleared().tracks);
        }
    }

    fn stop_all(&mut self)
        requires
            old(self).wf(),
        ensures
            final(self).wf(),
            final(self)@ == old(self)@.all_stopped(),
            sent_back(old(self).buffers, final(self).buffers),
    {
        let ghost start = self@;
        let count: usize = self.tracks.len();
        let mut track: usize = 0;
        assert(start.tracks.subrange(0, 0).len() == 0);
        assert(start.returned + Seq::<Seq<u32>>::empty() =~= start.returned);
        while track < count
            invariant
                sent_back(old(self).buffers, self.buffers),
                start == old(self)@,
                count == start.tracks.len(),
                track <= count,
                self.wf(),
                self@.tracks.len() == count,
                forall|i: int|
                    0 <= i < count ==> #[trigger] self@.tracks[i] == (if i < track {
                        stopped(start.tracks[i])
                    } else {
                        start.tracks[i]
                    }),
                self@ == (EngineModel {
                    tracks: self@.tracks,
                    returned: start.returned + all_held_back(
                        start.tracks.subrange(0, track as int),
                    ),
                    ..start
                }),
            decreases count - track,
        {
            let ghost before = self@;
            self.cancel_takes(track);
            let ghost list = self.tracks@;
            let ghost t = track as int;
            assert(self@.tracks[t] == list[t]@);
            self.tracks[track].playing = false;
            proof {
                lemma_models_update(list, t, self.tracks@[t]);
                assert(self.tracks@ =~= list.update(t, self.tracks@[t]));
                let done = start.tracks.subrange(0, t + 1);
                assert(done.drop_last() =~= start.tracks.subrange(0, t));
                assert(done.last() == start.tracks[t]);
                assert(self@.returned =~= start.returned + all_held_back(done));
            }
            track = track + 1;
        }
        self.stopped = true;
        proof {
            assert(start.tracks.subrange(0, count as int) =~= start.tracks);
            assert(self@.tracks =~= start.all_stopped().tracks);
        }
    }

    /// Whether any track holds, records or plays something.
    fn is_occupied(&self) -> (r: bool)
        ensures
            r == self@.occupied(),
    {
        let mut i: usize = 0;
        while i < self.tracks.len()
            invariant
                i <= self.tracks.len(),
                forall|j: int|
                    0 <= j < i ==> {
                        let track = #[trigger] self@.tracks[j];
                        !(track.layers.len() > 0 || track.take is Some || track.playing)
                    },
            decreases self.tracks.len() - i,
        {
            assert(self@.tracks[i as int] == self.tracks@[i as int]@);
            if self.tracks[i].layer_count() > 0 || self.tracks[i].take.is_some()
                || self.tracks[i].playing {
                return true;
            }
            i = i + 1;
        }
        false
    }

    /// Hand the whole stock back.
    fn return_stock(&mut self)
        requires
            old(self).wf(),
        ensures
            final(self).wf(),
            final(self)@ == (EngineModel {
                spares: Seq::empty(),
                returned: old(self)@.returned + old(self)@.spares.reverse(),
                ..old(self)@
            }),
            sent_back(old(self).buffers, final(self).buffers),
    {
        let ghost start = self@;
        while self.spares.len() > 0
            invariant
                sent_back(old(self).buffers, self.buffers),
                self.wf(),
                self@.spares.len() <= start.spares.len(),
                self@.returned + self@.spares.reverse() == start.returned + start.spares.reverse(),
                self@ == (EngineModel {
                    spares: self@.spares,
                    returned: self@.returned,
                    ..start
                }),
            decreases self.spares.len(),
        {
            let ghost before = self.spares@;
            let ghost model = self@;
            if let Some(buffer) = self.spares.pop() {
                assert(contents(self.spares@) =~= contents(before).drop_last());
                assert(contents(before).last() == buffer@);
                assert(model.returned.push(buffer@) + self@.spares.reverse() =~= model.returned
                    + model.spares.reverse());
                self.buffers.retire(buffer);
            }
        }
        assert(self@.spares =~= Seq::<Seq<u32>>::empty());
        assert(self@.returned + self@.spares.reverse() =~= self@.returned);
    }

    fn change_tempo(&mut self, bpm: Bpm, signature: TimeSignature, layer_capacity: u64)
        requires
            old(self).wf(),
        ensures
            final(self).wf(),
            final(self)@ == old(self)@.applied(
                Command::SetTempo { bpm, signature, layer_capacity },
            ),
            sent_back(old(self).buffers, final(self).buffers),
    {
        if self.is_occupied() {
            self.refuse(Refusal::Tempo);
            return;
        }
        match self.timeline.with_tempo(bpm, signature) {
            Ok(timeline) => {
                self.return_stock();
                self.timeline = timeline;
                self.layer_capacity = layer_capacity;
            },
            Err(_) => {
                self.refuse(Refusal::Tempo);
            },
        }
    }

    fn remove_layer(&mut self, track: usize, layer: usize)
        requires
            old(self).wf(),
            track < old(self)@.tracks.len(),
        ensures
            final(self).wf(),
            final(self)@ == old(self)@.applied(Command::RemoveLayer { track, layer }),
            sent_back(old(self).buffers, final(self).buffers),
    {
        let ghost list = self.tracks@;
        let ghost t = track as int;
        assert(self@.tracks[t] == list[t]@);
        if self.tracks[track].take.is_some() {
            self.refuse(Refusal::Busy);
            return;
        }
        let removed: Option<Vec<u32>> = self.tracks[track].remove_layer(layer);
        proof {
            lemma_models_update(list, t, self.tracks@[t]);
            assert(self.tracks@ =~= list.update(t, self.tracks@[t]));
            assert(track_models(list).update(t, list[t]@) =~= track_models(list));
        }
        match removed {
            Some(buffer) => self.buffers.retire(buffer),
            None => self.refuse(Refusal::NoSuchTarget),
        }
    }
}

/// An effect command, carried out on its chain.
fn turn(chain: &mut Chain, cmd: Command)
    requires
        old(chain).wf(),
        acts_on_chain(cmd),
    ensures
        chain_changed(*old(chain), *final(chain), cmd),
{
    match cmd {
        Command::SetFxBypass { on, .. } => chain.set_bypass(on),
        Command::SetFxEnabled { slot, on, .. } => {
            let _ = chain.set_enabled(slot, on);
        },
        Command::SetFxParam { param, .. } => chain.set_param(param),
        Command::LoadFxPreset { preset, .. } => chain.load_preset(preset),
        _ => {},
    }
}

impl EngineCore {
    /// The loop length is known with the stop, even though the last frames of the take are still
    /// travelling in. Publishing it here makes the switch from recording to playing seamless at the
    /// loop boundary.
    fn stop_record(&mut self, track: usize, at: u64)
        requires
            old(self).wf(),
            track < old(self)@.tracks.len(),
        ensures
            final(self).wf(),
            final(self)@ == old(self)@.with_track(
                track as int,
                old(self)@.tracks[track as int].stopped_at(at),
            ),
            sent_back(old(self).buffers, final(self).buffers),
    {
        let ghost list = self.tracks@;
        let ghost t = track as int;
        assert(self@.tracks[t] == list[t]@);
        self.tracks[track].set_take_end(at);
        proof {
            lemma_models_update(list, t, self.tracks@[t]);
            assert(self.tracks@ =~= list.update(t, self.tracks@[t]));
        }
    }

    fn set_playing(&mut self, track: usize, on: bool)
        requires
            old(self).wf(),
            track < old(self)@.tracks.len(),
        ensures
            final(self).wf(),
            final(self)@ == old(self)@.with_track(
                track as int,
                TrackModel { playing: on, ..old(self)@.tracks[track as int] },
            ),
            sent_back(old(self).buffers, final(self).buffers),
    {
        let ghost list = self.tracks@;
        let ghost t = track as int;
        assert(self@.tracks[t] == list[t]@);
        self.tracks[track].playing = on;
        proof {
            lemma_models_update(list, t, self.tracks@[t]);
            assert(self.tracks@ =~= list.update(t, self.tracks@[t]));
        }
    }

    fn set_monitor(&mut self, track: usize, on: bool)
        requires
            old(self).wf(),
            track < old(self)@.tracks.len(),
        ensures
            final(self).wf(),
            final(self)@ == old(self)@.with_track(
                track as int,
                TrackModel { monitor: on, ..old(self)@.tracks[track as int] },
            ),
            sent_back(old(self).buffers, final(self).buffers),
    {
        let ghost list = self.tracks@;
        let ghost t = track as int;
        assert(self@.tracks[t] == list[t]@);
        self.tracks[track].monitor = on;
        proof {
            lemma_models_update(list, t, self.tracks@[t]);
            assert(self.tracks@ =~= list.update(t, self.tracks@[t]));
        }
    }

    fn set_mix(&mut self, track: usize, mix: Mix)
        requires
            old(self).wf(),
            track < old(self)@.tracks.len(),
        ensures
            final(self).wf(),
            final(self)@ == old(self)@.with_track(
                track as int,
                TrackModel { mix, ..old(self)@.tracks[track as int] },
            ),
            sent_back(old(self).buffers, final(self).buffers),
    {
        let ghost list = self.tracks@;
        let ghost t = track as int;
        assert(self@.tracks[t] == list[t]@);
        self.tracks[track].mix = mix;
        proof {
            lemma_models_update(list, t, self.tracks@[t]);
            assert(self.tracks@ =~= list.update(t, self.tracks@[t]));
        }
    }

    fn mix_of(&self, track: usize) -> (r: Mix)
        requires
            track < self@.tracks.len(),
        ensures
            r == self@.tracks[track as int].mix,
    {
        assert(self@.tracks[track as int] == self.tracks@[track as int]@);
        self.tracks[track].mix
    }

    fn set_layer_mute(&mut self, track: usize, layer: usize, muted: bool)
        requires
            old(self).wf(),
            track < old(self)@.tracks.len(),
        ensures
            final(self).wf(),
            final(self)@ == old(self)@.applied(Command::SetLayerMute { track, layer, muted }),
            sent_back(old(self).buffers, final(self).buffers),
    {
        let ghost list = self.tracks@;
        let ghost t = track as int;
        assert(self@.tracks[t] == list[t]@);
        let known: bool = self.tracks[track].set_layer_muted(layer, muted);
        proof {
            lemma_models_update(list, t, self.tracks@[t]);
            assert(self.tracks@ =~= list.update(t, self.tracks@[t]));
            assert(track_models(list).update(t, list[t]@) =~= track_models(list));
        }
        if !known {
            self.refuse(Refusal::NoSuchTarget);
        }
    }

    fn set_layer_gain(&mut self, track: usize, layer: usize, gain: Single)
        requires
            old(self).wf(),
            track < old(self)@.tracks.len(),
        ensures
            final(self).wf(),
            final(self)@ == old(self)@.applied(Command::SetLayerGain { track, layer, gain }),
            sent_back(old(self).buffers, final(self).buffers),
    {
        let ghost list = self.tracks@;
        let ghost t = track as int;
        assert(self@.tracks[t] == list[t]@);
        let known: bool = self.tracks[track].set_layer_gain(layer, gain);
        proof {
            lemma_models_update(list, t, self.tracks@[t]);
            assert(self.tracks@ =~= list.update(t, self.tracks@[t]));
            assert(track_models(list).update(t, list[t]@) =~= track_models(list));
        }
        if !known {
            self.refuse(Refusal::NoSuchTarget);
        }
    }

    /// Tell every chain what a beat is worth right now; a chain that knows already ignores it.
    fn tune_chains(&mut self)
        requires
            old(self).wf(),
        ensures
            final(self).wf(),
            final(self)@.tracks.len() == old(self)@.tracks.len(),
            forall|t: int|
                0 <= t < old(self)@.tracks.len() ==> track_tuned(
                    #[trigger] old(self)@.tracks[t],
                    final(self)@.tracks[t],
                    old(self)@.timeline.tempo(),
                ),
            final(self)@ == (EngineModel { tracks: final(self)@.tracks, ..old(self)@ }),
            sent_back(old(self).buffers, final(self).buffers),
    {
        let bpm: Bpm = self.timeline.bpm();
        let mut track: usize = 0;
        while track < self.tracks.len()
            invariant
                sent_back(old(self).buffers, self.buffers),
                self.wf(),
                bpm == old(self)@.timeline.tempo(),
                bpm.valid(),
                track <= self@.tracks.len() == old(self)@.tracks.len(),
                forall|t: int|
                    0 <= t < track ==> track_tuned(
                        #[trigger] old(self)@.tracks[t],
                        self@.tracks[t],
                        old(self)@.timeline.tempo(),
                    ),
                forall|t: int|
                    track <= t < self@.tracks.len() ==> #[trigger] self@.tracks[t]
                        == old(self)@.tracks[t],
                self@ == (EngineModel { tracks: self@.tracks, ..old(self)@ }),
            decreases self.tracks.len() - track,
        {
            let ghost before = self@;
            let ghost list = self.tracks@;
            let ghost t = track as int;
            assert(self@.tracks[t] == list[t]@);
            assert(self@.tracks[t].wf());
            let _ = self.tracks[track].chain.set_tempo(bpm);
            proof {
                lemma_models_update(list, t, self.tracks@[t]);
                assert(self.tracks@ =~= list.update(t, self.tracks@[t]));
                lemma_total_buffers_update(before.tracks, t, self@.tracks[t]);
                assert(old(self)@.tracks[t] == before.tracks[t]);
            }
            track = track + 1;
        }
    }

    /// The commands that turn something on a track's effect chain.
    fn turn_chain(&mut self, track: usize, cmd: Command)
        requires
            old(self).wf(),
            track < old(self)@.tracks.len(),
            cmd.target() == Some(track),
            acts_on_chain(cmd),
        ensures
            final(self).wf(),
            chain_changed(
                old(self)@.tracks[track as int].chain,
                final(self)@.tracks[track as int].chain,
                cmd,
            ),
            final(self)@ == old(self)@.with_track(
                track as int,
                TrackModel {
                    chain: final(self)@.tracks[track as int].chain,
                    ..old(self)@.tracks[track as int]
                },
            ),
            sent_back(old(self).buffers, final(self).buffers),
    {
        let ghost list = self.tracks@;
        let ghost t = track as int;
        assert(self@.tracks[t] == list[t]@);
        turn(&mut self.tracks[track].chain, cmd);
        proof {
            lemma_models_update(list, t, self.tracks@[t]);
            assert(self.tracks@ =~= list.update(t, self.tracks@[t]));
        }
    }

    /// The commands that move the transport of one track or of all.
    fn apply_transport(&mut self, cmd: Command)
        requires
            old(self).wf(),
            cmd.time() is Some,
            cmd.target() matches Some(track) ==> track < old(self)@.tracks.len(),
        ensures
            final(self).wf(),
            final(self)@ == old(self)@.applied(cmd),
            sent_back(old(self).buffers, final(self).buffers),
    {
        match cmd {
            Command::StartRecord { track, at } => self.start_record(track, at),
            Command::StartOverdub { track, at } => self.start_overdub(track, at),
            Command::StopRecord { track, at } => self.stop_record(track, at),
            Command::StartPlay { track, .. } => self.set_playing(track, true),
            Command::StopPlay { track, .. } => self.set_playing(track, false),
            Command::ClearTrack { track, .. } => self.clear_track(track),
            Command::ClearAll { .. } => self.clear_all(),
            _ => {},
        }
    }

    /// The commands that change what one track sounds like.
    fn apply_to_track(&mut self, track: usize, cmd: Command)
        requires
            old(self).wf(),
            cmd.time() is None,
            cmd.target() == Some(track),
            !acts_on_chain(cmd),
            track < old(self)@.tracks.len(),
        ensures
            final(self).wf(),
            final(self)@ == old(self)@.applied(cmd),
            sent_back(old(self).buffers, final(self).buffers),
    {
        let mix: Mix = self.mix_of(track);
        match cmd {
            Command::SetMonitor { on, .. } => self.set_monitor(track, on),
            Command::SetLayerMute { layer, muted, .. } => self.set_layer_mute(track, layer, muted),
            Command::SetLayerGain { layer, gain, .. } => self.set_layer_gain(track, layer, gain),
            Command::RemoveLayer { layer, .. } => self.remove_layer(track, layer),
            Command::SetPan { pan, .. } => self.set_mix(track, Mix { pan, ..mix }),
            Command::SetTrackSend { source, send, .. } => match source {
                TrackSource::Loop => self.set_mix(track, Mix { loop_send: send, ..mix }),
                TrackSource::Monitor => self.set_mix(track, Mix { monitor_send: send, ..mix }),
            },
            Command::SetTrackLatency { latency, .. } => self.set_mix(track, Mix { latency, ..mix }),
            _ => {},
        }
    }

    /// The commands that concern no single track.
    fn apply_to_engine(&mut self, cmd: Command)
        requires
            old(self).wf(),
            cmd.time() is None,
            cmd.target() is None,
        ensures
            final(self).wf(),
            final(self)@ == old(self)@.applied(cmd),
            sent_back(old(self).buffers, final(self).buffers),
    {
        match cmd {
            Command::SetBusGain { bus, gain } => match bus {
                Bus::Main => {
                    self.main_gain = gain;
                },
                Bus::Monitor => {
                    self.monitor_gain = gain;
                },
            },
            Command::SetBusOutput { bus, out } => {
                self.routing.set(bus, out.clamped(self.output_channels));
            },
            Command::SetClick { on } => {
                self.click = on;
            },
            Command::SetTempo { bpm, signature, layer_capacity } => self.change_tempo(
                bpm,
                signature,
                layer_capacity,
            ),
            Command::Stop => self.stop_all(),
            _ => {},
        }
    }

    /// Carry one command out, now.
    pub fn apply(&mut self, cmd: Command)
        requires
            old(self).wf(),
        ensures
            final(self).wf(),
            match cmd.target() {
                Some(track) if acts_on_chain(cmd) && track < old(self)@.tracks.len() => {
                    &&& chain_changed(
                        old(self)@.tracks[track as int].chain,
                        final(self)@.tracks[track as int].chain,
                        cmd,
                    )
                    &&& final(self)@ == old(self)@.with_track(
                        track as int,
                        TrackModel {
                            chain: final(self)@.tracks[track as int].chain,
                            ..old(self)@.tracks[track as int]
                        },
                    )
                },
                _ => final(self)@ == old(self)@.applied(cmd),
            },
            handed_back(*old(self), *final(self)),
    {
        match cmd.track() {
            Some(track) => {
                // Every track-scoped command is checked once, here, so nothing below can index out
                // of range.
                if track >= self.tracks.len() {
                    self.refuse(Refusal::NoSuchTarget);
                } else if cmd.at().is_some() {
                    self.apply_transport(cmd);
                } else {
                    match cmd {
                        Command::SetFxBypass { .. } | Command::SetFxEnabled { .. }
                        | Command::SetFxParam { .. } | Command::LoadFxPreset {
                            ..
                        } => self.turn_chain(track, cmd),
                        _ => self.apply_to_track(track, cmd),
                    }
                }
            },
            None => {
                if cmd.at().is_some() {
                    self.apply_transport(cmd);
                } else {
                    self.apply_to_engine(cmd);
                }
            },
        }
    }
}

impl EngineCore {
    /// Close a take and immediately start whatever was queued behind it.
    fn finish_take(&mut self, track: usize, end: u64)
        requires
            old(self).wf(),
            track < old(self)@.tracks.len(),
        ensures
            final(self).wf(),
            final(self)@ == old(self)@.with_recorded(
                track as int,
                take_closed(old(self)@.tracks[track as int], end),
            ),
            sent_back(old(self).buffers, final(self).buffers),
    {
        let ghost t = track as int;
        let ghost start = self@;
        let ghost list = self.tracks@;
        assert(self@.tracks[t] == list[t]@);
        self.tracks[track].finish_take(end);
        proof {
            lemma_models_update(list, t, self.tracks@[t]);
            assert(self.tracks@ =~= list.update(t, self.tracks@[t]));
        }
        let ghost closed = self.tracks@[t]@;
        if self.tracks[track].pending_defines_loop() {
            self.give_layers_back(track);
        }
        let ghost list = self.tracks@;
        assert(self@.tracks[t] == list[t]@);
        let back: Option<Vec<u32>> = self.tracks[track].promote_pending();
        proof {
            lemma_models_update(list, t, self.tracks@[t]);
            assert(self.tracks@ =~= list.update(t, self.tracks@[t]));
            assert(self@.tracks =~= start.tracks.update(t, self.tracks@[t]@));
        }
        if let Some(buffer) = back {
            self.buffers.retire(buffer);
            self.refuse(Refusal::LayerLimit);
        }
        proof {
            let r = take_closed(start.tracks[t], end);
            assert(self@.tracks[t] == r.track);
            assert(self@.returned =~= start.returned + r.returned);
            assert(self@.tracks =~= start.tracks.update(t, r.track));
        }
    }

    /// Silence a track and give all its layers back. What is queued stays queued.
    fn give_layers_back(&mut self, track: usize)
        requires
            old(self).wf(),
            track < old(self)@.tracks.len(),
            old(self)@.tracks[track as int].take is None,
            old(self)@.tracks[track as int].filled == 0,
        ensures
            final(self).wf(),
            final(self)@ == (EngineModel {
                returned: old(self)@.returned + newest_first(
                    old(self)@.tracks[track as int].layers,
                ),
                ..old(self)@.with_track(
                    track as int,
                    TrackModel {
                        pending: old(self)@.tracks[track as int].pending,
                        ..cleared(old(self)@.tracks[track as int])
                    },
                )
            }),
            sent_back(old(self).buffers, final(self).buffers),
    {
        let ghost t = track as int;
        let ghost start = self@;
        let ghost list = self.tracks@;
        assert(self@.tracks[t] == list[t]@);
        self.tracks[track].playing = false;
        proof {
            lemma_models_update(list, t, self.tracks@[t]);
            assert(self.tracks@ =~= list.update(t, self.tracks@[t]));
        }
        loop
            invariant
                sent_back(old(self).buffers, self.buffers),
                start == old(self)@,
                start.wf(),
                t == track,
                0 <= t < start.tracks.len(),
                start.tracks[t].take is None,
                start.tracks[t].filled == 0,
                self.wf(),
                self@.tracks.len() == start.tracks.len(),
                ({
                    let now = self@.tracks[t];
                    &&& now == (TrackModel {
                        playing: false,
                        layers: now.layers,
                        origin: now.origin,
                        loop_len: now.loop_len,
                        ..start.tracks[t]
                    })
                    &&& now.layers.len() <= start.tracks[t].layers.len()
                    &&& self@.returned + newest_first(now.layers) == start.returned + newest_first(
                        start.tracks[t].layers,
                    )
                    &&& self@ == (EngineModel {
                        returned: self@.returned,
                        ..start.with_track(t, now)
                    })
                }),
            ensures
                self.wf(),
                self@ == (EngineModel {
                    returned: start.returned + newest_first(start.tracks[t].layers),
                    ..start.with_track(
                        t,
                        TrackModel {
                            pending: start.tracks[t].pending,
                            ..cleared(start.tracks[t])
                        },
                    )
                }),
            decreases self@.tracks[t].layers.len(),
        {
            let ghost list = self.tracks@;
            let ghost before = self@;
            assert(self@.tracks[t] == list[t]@);
            match self.tracks[track].pop_layer() {
                Some(buffer) => {
                    proof {
                        lemma_models_update(list, t, self.tracks@[t]);
                        assert(self.tracks@ =~= list.update(t, self.tracks@[t]));
                        lemma_newest_goes_first(before.tracks[t].layers);
                        let rest = newest_first(self@.tracks[t].layers);
                        assert(before.returned.push(buffer@) + rest =~= before.returned + (
                        seq![buffer@] + rest));
                    }
                    self.buffers.retire(buffer);
                    assert(self@.tracks =~= start.tracks.update(t, self@.tracks[t]));
                },
                None => {
                    assert(self.tracks@ =~= list.update(t, self.tracks@[t]));
                    proof {
                        lemma_models_update(list, t, self.tracks@[t]);
                    }
                    assert(newest_first(before.tracks[t].layers) =~= Seq::<Seq<u32>>::empty());
                    assert(self@.returned =~= start.returned + newest_first(
                        start.tracks[t].layers,
                    ));
                    assert(self@.tracks[t] =~= (TrackModel {
                        pending: start.tracks[t].pending,
                        ..cleared(start.tracks[t])
                    }));
                    assert(self@.tracks =~= start.tracks.update(t, self@.tracks[t]));
                    break;
                },
            }
        }
    }

    /// Where the running take of one track ends, if it does so at or before `pos`.
    ///
    /// Two ways a take ends: at the position it was stopped at, or, if it was never stopped, at the
    /// buffer length respectively after one pass through the loop, instead of overwriting what it
    /// just recorded.
    fn take_ended(&self, track: usize, pos: u64) -> (r: Option<u64>)
        requires
            self.wf(),
            track < self@.tracks.len(),
        ensures
            r == ended_at(self@.tracks[track as int], pos),
    {
        assert(self@.tracks[track as int] == self.tracks@[track as int]@);
        let limit: Option<u64> = self.tracks[track].take_limit();
        match self.tracks[track].take {
            Some(take) => {
                if let Some(end) = take.end {
                    if pos >= end {
                        return Some(end);
                    }
                }
                match limit {
                    Some(limit) => if pos >= limit {
                        Some(limit)
                    } else {
                        None
                    },
                    None => None,
                }
            },
            None => None,
        }
    }

    /// Write one sample into whatever take is open on this track, if the position belongs to it.
    fn write_into_take(&mut self, track: usize, pos: u64, sample: u32)
        requires
            old(self).wf(),
            track < old(self)@.tracks.len(),
        ensures
            final(self).wf(),
            final(self)@ == old(self)@.with_track(
                track as int,
                written_into_take(old(self)@.tracks[track as int], pos, sample),
            ),
            sent_back(old(self).buffers, final(self).buffers),
    {
        let ghost t = track as int;
        let ghost list = self.tracks@;
        assert(self@.tracks[t] == list[t]@);
        assert(self@.tracks.update(t, self@.tracks[t]) =~= self@.tracks);
        let ended: Option<u64> = self.take_ended(track, pos);
        if let Some(take) = self.tracks[track].take {
            if pos >= take.start && ended.is_none() {
                self.tracks[track].write(pos, sample);
                proof {
                    lemma_models_update(list, t, self.tracks@[t]);
                    assert(self.tracks@ =~= list.update(t, self.tracks@[t]));
                }
            }
        }
    }

    /// One sample of one track's input channel, played at `pos`.
    fn record_sample(&mut self, track: usize, pos: Option<u64>, sample: u32)
        requires
            old(self).wf(),
            track < old(self)@.tracks.len(),
        ensures
            final(self).wf(),
            final(self)@ == old(self)@.with_recorded(
                track as int,
                sample_fed(old(self)@.tracks[track as int], pos, sample),
            ),
            sent_back(old(self).buffers, final(self).buffers),
    {
        let ghost t = track as int;
        let ghost start = self@;
        let ghost list = self.tracks@;
        assert(self@.tracks[t] == list[t]@);
        self.tracks[track].note_input_peak((Single { bits: sample }).abs());
        proof {
            lemma_models_update(list, t, self.tracks@[t]);
            assert(self.tracks@ =~= list.update(t, self.tracks@[t]));
        }
        let ghost metered = self@.tracks[t];
        assert(metered == self.tracks@[t]@);
        assert(self@ =~= start.with_track(t, metered));
        // What arrives before the compensation has passed was not played after position 0, so there
        // is no musical position to store it at.
        if let Some(pos) = pos {
            if let Some(take) = self.tracks[track].take {
                if pos >= take.start {
                    match self.take_ended(track, pos) {
                        Some(end) => {
                            self.finish_take(track, end);
                            // This very sample is the first one after the old take, and therefore
                            // the first one of a take queued behind it, if the two are back to back.
                            self.write_into_take(track, pos, sample);
                        },
                        None => {
                            let ghost list = self.tracks@;
                            self.tracks[track].write(pos, sample);
                            proof {
                                lemma_models_update(list, t, self.tracks@[t]);
                                assert(self.tracks@ =~= list.update(t, self.tracks@[t]));
                            }
                        },
                    }
                }
            }
        }
        proof {
            let fed = sample_fed(start.tracks[t], pos, sample);
            assert(self@.tracks[t] == fed.track);
            assert(self@.tracks =~= start.tracks.update(t, fed.track));
            assert(self@.returned =~= start.returned + fed.returned);
        }
    }
}

impl EngineCore {
    /// Write the consumed input frames of one track into its takes, latency-compensated, and meter
    /// its channel on the way.
    fn record_track(&mut self, track: usize, input: &[u32], frames: usize)
        requires
            old(self).wf(),
            track < old(self)@.tracks.len(),
            frames * old(self)@.input_channels <= input@.len(),
            old(self)@.in_index + frames <= u64::MAX,
        ensures
            final(self).wf(),
            final(self)@ == old(self)@.with_recorded(
                track as int,
                old(self)@.fed(track as int, input@, frames as nat),
            ),
            sent_back(old(self).buffers, final(self).buffers),
    {
        let ghost start = self@;
        let ghost t = track as int;
        assert(self@.tracks[t] == self.tracks@[t]@);
        let channels: usize = self.input_channels;
        let channel: usize = self.tracks[track].input_channel;
        let latency: u64 = self.tracks[track].mix.latency.resolve(self.latency);
        let mut j: usize = 0;
        let mut base: usize = 0;
        assert(self@ =~= start.with_recorded(t, start.fed(t, input@, 0)));
        while j < frames
            invariant
                sent_back(old(self).buffers, self.buffers),
                start == old(self)@,
                start.wf(),
                t == track,
                0 <= t < start.tracks.len(),
                channels == start.input_channels,
                channel == start.tracks[t].input_channel,
                latency == start.latency_of(t),
                frames * start.input_channels <= input@.len(),
                start.in_index + frames <= u64::MAX,
                j <= frames,
                base == j * channels,
                self.wf(),
                self@ == start.with_recorded(t, start.fed(t, input@, j as nat)),
            decreases frames - j,
        {
            proof {
                assert((j + 1) * channels <= frames * channels) by (nonlinear_arith)
                    requires
                        j + 1 <= frames,
                ;
                assert((j + 1) * channels == j * channels + channels) by (nonlinear_arith);
            }
            let ghost so_far = start.fed(t, input@, j as nat);
            assert(self@.tracks[t] == so_far.track);
            if channel < input.len() - base {
                let k: u64 = self.in_index + j as u64;
                // The one line the whole compensation comes down to.
                let pos: Option<u64> = if k >= latency {
                    Some(k - latency)
                } else {
                    None
                };
                self.record_sample(track, pos, input[base + channel]);
            }
            assert(self@.tracks =~= start.tracks.update(
                t,
                start.fed(t, input@, (j + 1) as nat).track,
            ));
            assert(self@.returned =~= start.returned + start.fed(
                t,
                input@,
                (j + 1) as nat,
            ).returned);
            base = base + channels;
            j = j + 1;
        }
    }

    /// Write the consumed input frames into the running takes and meter every track's input channel
    /// on the way. Input frame `k` was played at `k` minus the track's compensation, and that is
    /// where it is stored.
    pub fn record_input(&mut self, input: &[u32])
        requires
            old(self).wf(),
            old(self)@.in_index + input@.len() <= u64::MAX,
        ensures
            final(self).wf(),
            final(self)@ == old(self)@.block_recorded(input@, old(self)@.tracks.len()),
            handed_back(*old(self), *final(self)),
    {
        let ghost start = self@;
        let count: usize = self.tracks.len();
        let frames: usize = input.len() / self.input_channels;
        proof {
            let n: int = input@.len() as int;
            let c: int = self.input_channels as int;
            vstd::arithmetic::div_mod::lemma_fundamental_div_mod(n, c);
            vstd::arithmetic::div_mod::lemma_div_nonincreasing(n, c);
            assert(c * (n / c) == (n / c) * c) by (nonlinear_arith);
        }
        let mut track: usize = 0;
        while track < count
            invariant
                sent_back(old(self).buffers, self.buffers),
                start == old(self)@,
                start.wf(),
                count == start.tracks.len(),
                track <= count,
                frames == input@.len() / (start.input_channels as nat),
                frames * start.input_channels <= input@.len(),
                start.in_index + frames <= u64::MAX,
                self.wf(),
                self@.tracks.len() == count,
                self@ == start.block_recorded(input@, track as nat),
                self@.in_index == start.in_index,
                self@.latency == start.latency,
                self@.input_channels == start.input_channels,
                forall|i: int| track <= i < count ==> #[trigger] self@.tracks[i] == start.tracks[i],
            decreases count - track,
        {
            assert(self@.tracks[track as int] == start.tracks[track as int]);
            self.record_track(track, input, frames);
            track = track + 1;
        }
    }

    /// Limit a block of output to full scale and remember its loudest sample.
    pub fn clamp_and_meter(&mut self, output: &mut [u32])
        requires
            old(self).wf(),
        ensures
            final(self).wf(),
            final(output)@.len() == old(output)@.len(),
            forall|i: int|
                0 <= i < old(output)@.len() ==> #[trigger] final(output)@[i] == limited(
                    old(output)@[i],
                ),
            final(self)@ == old(self)@.metered(final(output)@),
            handed_back(*old(self), *final(self)),
    {
        let mut peak: Single = Single { bits: 0 };
        let mut i: usize = 0;
        let ghost before = output@;
        assert(output@.subrange(0, 0).len() == 0);
        while i < output.len()
            invariant
                sent_back(old(self).buffers, self.buffers),
                i <= output@.len() == before.len(),
                before == old(output)@,
                forall|j: int| 0 <= j < i ==> #[trigger] output@[j] == limited(before[j]),
                forall|j: int| i <= j < before.len() ==> #[trigger] output@[j] == before[j],
                peak == loudest(output@.subrange(0, i as int)),
                self@ == old(self)@,
            decreases output.len() - i,
        {
            let ghost done = output@.subrange(0, i as int);
            let v: Single = (Single { bits: output[i] }).clamp(
                Single { bits: MINUS_ONE },
                Single { bits: UNITY },
            );
            output[i] = v.bits;
            let magnitude: Single = v.abs();
            if peak.below(magnitude) {
                peak = magnitude;
            }
            proof {
                let now = output@.subrange(0, i + 1);
                assert(now.drop_last() =~= done);
                assert(now.last() == v.bits);
            }
            i = i + 1;
        }
        assert(output@.subrange(0, i as int) =~= output@);
        self.output_peak = self.output_peak.max(peak);
    }

    /// The snapshot of one track.
    fn track_status(&self, track: usize) -> (r: TrackStatus)
        requires
            self.wf(),
            track < self@.tracks.len(),
        ensures
            track_shown_by(self@.tracks[track as int], self@.input_now(track as int), r),
    {
        let now: u64 = self.musical_input_pos(track);
        assert(self@.tracks[track as int] == self.tracks@[track as int]@);
        let t = &self.tracks[track];
        let r = TrackStatus {
            state: t.state(now),
            layers: t.layer_count() as u8,
            muted_mask: t.muted_mask(),
            loop_len: t.loop_len,
            origin: t.origin,
            filled: t.filled,
            input_peak: [t.input_peak, Single { bits: 0 }],
            output_peak: [t.output_peak, t.output_peak],
            monitor: t.monitor,
            playing: t.playing,
            input_channels: [t.input_channel as u8, 0],
            channels: 1,
            pan: t.mix.pan,
            loop_send: t.mix.loop_send,
            monitor_send: t.mix.monitor_send,
            fx: t.chain.status(t.reduction_db),
        };
        assert(r.input_peak@ =~= seq![t.input_peak, Single { bits: 0 }]);
        assert(r.output_peak@ =~= seq![t.output_peak, t.output_peak]);
        assert(r.input_channels@ =~= seq![t.input_channel as u8, 0u8]);
        r
    }

    /// Push a snapshot and let the meters start anew.
    fn publish_status(&mut self)
        requires
            old(self).wf(),
            old(self)@.out_pos < MAX_BEAT,
        ensures
            final(self).wf(),
            final(self)@.offered.len() == old(self)@.offered.len() + 1,
            old(self)@.shown_by(final(self)@.offered.last()),
            old(self)@.handed_out(
                final(self)@.offered.last(),
                final(self)@.published,
                final(self)@.status_room,
            ),
            final(self)@ == (EngineModel {
                published: final(self)@.published,
                status_room: final(self)@.status_room,
                ..old(self)@.after_snapshot(final(self)@.offered.last())
            }),
            sent_back(old(self).buffers, final(self).buffers),
    {
        let ghost start = self@;
        let here = self.timeline.locate(self.out_pos);
        let mut tracks: [TrackStatus; 8] = [TrackStatus::default(); 8];
        let count: usize = self.tracks.len();
        let mut i: usize = 0;
        while i < count
            invariant
                sent_back(old(self).buffers, self.buffers),
                start == self@,
                self.wf(),
                count == start.tracks.len(),
                count <= 8,
                i <= count,
                forall|t: int|
                    0 <= t < i ==> track_shown_by(
                        start.tracks[t],
                        start.input_now(t),
                        #[trigger] tracks@[t],
                    ),
                forall|t: int| i <= t < 8 ==> (#[trigger] tracks@[t]).fresh(),
            decreases count - i,
        {
            tracks[i] = self.track_status(i);
            i = i + 1;
        }
        let status = Status {
            pos: self.out_pos,
            bar: here.bar,
            beat: here.beat,
            beat_offset: here.offset,
            tracks,
            track_count: count as u8,
            output_peak: self.output_peak,
            click: self.click,
            bpm: self.timeline.bpm(),
            main_gain: self.main_gain,
            monitor_gain: self.monitor_gain,
            bus_out: self.routing,
            output_channels: self.output_channels,
            ignored_commands: self.ignored_commands,
            refusal: self.refusal,
            spares: self.spares.len() as u32,
            buffers_taken: self.buffers_taken,
            stopped: self.stopped,
        };
        let zero = Single { bits: 0 };
        let mut i: usize = 0;
        while i < count
            invariant
                sent_back(old(self).buffers, self.buffers),
                start == old(self)@,
                start.wf(),
                count == start.tracks.len(),
                i <= count,
                zero == (Single { bits: 0 }),
                self@.tracks.len() == count,
                forall|t: int|
                    0 <= t < count ==> #[trigger] self@.tracks[t] == (if t < i {
                        meters_at_rest(start.tracks[t])
                    } else {
                        start.tracks[t]
                    }),
                total_buffers(self@.tracks) == total_buffers(start.tracks),
                self@ == (EngineModel { tracks: self@.tracks, ..start }),
            decreases count - i,
        {
            let ghost list = self.tracks@;
            let ghost t = i as int;
            assert(self@.tracks[t] == list[t]@);
            self.tracks[i].input_peak = zero;
            self.tracks[i].output_peak = zero;
            self.tracks[i].reduction_db = zero;
            proof {
                lemma_models_update(list, t, self.tracks@[t]);
                assert(self.tracks@ =~= list.update(t, self.tracks@[t]));
            }
            i = i + 1;
        }
        self.output_peak = zero;
        self.since_status = 0;
        self.status.push(status);
        proof {
            assert(self@.tracks =~= start.after_snapshot(status).tracks);
            assert(self@ =~= (EngineModel {
                published: self@.published,
                status_room: self@.status_room,
                ..start.after_snapshot(status)
            }));
        }
    }
}

/// Whether a queue was fetched from as far as there was room: a list that was not filled up got
/// everything that was known to be waiting and everything behind it, until a look showed nothing
/// more.
pub open spec fn fetched(before: nat, after: nat, slots: int, known: nat, left: nat) -> bool {
    &&& before <= after
    &&& after < slots ==> left == 0 && after - before >= known
}

/// Where a block of `len` frames that begins at `from` and is rendered up to `cursor` is rendered to
/// next, and which of the waiting commands is carried out there.
pub open spec fn steps_to(
    waiting: Seq<Command>,
    from: int,
    cursor: int,
    len: int,
    boundary: int,
    command: Option<usize>,
) -> bool {
    match command {
        Some(i) => {
            &&& acts_first(waiting, i as int)
            &&& waiting[i as int].due() < from + len
            &&& boundary == (if waiting[i as int].due() >= from + cursor {
                waiting[i as int].due() - from
            } else {
                cursor
            })
        },
        None => {
            &&& boundary == len
            &&& forall|j: int|
                0 <= j < waiting.len() ==> (#[trigger] waiting[j]).due() >= from + len
        },
    }
}

proof fn lemma_step(waiting: Seq<Command>, block_end: int)
    ensures
        due_first(waiting, block_end) matches Some(i) ==> acts_first(waiting, i) && waiting[i].due()
            < block_end,
        due_first(waiting, block_end) is None ==> forall|j: int|
            0 <= j < waiting.len() ==> (#[trigger] waiting[j]).due() >= block_end,
{
    if due_first(waiting, block_end) is None {
        nothing_due_is_left_behind(waiting, block_end);
    }
}

/// What the block is rendered up to before something else happens.
#[derive(Clone, Copy, Debug, PartialEq, Eq, Structural)]
pub struct Step {
    /// Frames of the block to have been rendered.
    pub boundary: usize,
    /// The slot of the command to carry out then. None means the block is complete.
    pub command: Option<usize>,
}

impl EngineCore {
    /// Collect prepared buffers from the control thread. Bounded work: at most `spare_slots` pops.
    fn refill_spares(&mut self)
        requires
            old(self).wf(),
        ensures
            final(self).wf(),
            old(self)@.spares.is_prefix_of(final(self)@.spares),
            fetched(
                old(self)@.spares.len(),
                final(self)@.spares.len(),
                old(self)@.spare_slots as int,
                old(self)@.delivered,
                final(self)@.delivered,
            ),
            final(self)@ == (EngineModel {
                spares: final(self)@.spares,
                delivered: final(self)@.delivered,
                arrived: old(self)@.arrived + final(self)@.spares.skip(
                    old(self)@.spares.len() as int,
                ),
                buffers_taken: counted_by(
                    old(self)@.buffers_taken,
                    (final(self)@.spares.len() - old(self)@.spares.len()) as nat,
                ),
                ..old(self)@
            }),
            sent_back(old(self).buffers, final(self).buffers),
    {
        let ghost start = self@;
        assert(start.arrived + start.spares.skip(start.spares.len() as int) =~= start.arrived);
        while self.spares.len() < self.spare_slots
            invariant
                sent_back(old(self).buffers, self.buffers),
                start == old(self)@,
                self.wf(),
                start.spares.is_prefix_of(self@.spares),
                self@.spares.len() - start.spares.len() + self@.delivered >= start.delivered,
                self@ == (EngineModel {
                    spares: self@.spares,
                    delivered: self@.delivered,
                    arrived: start.arrived + self@.spares.skip(start.spares.len() as int),
                    buffers_taken: counted_by(
                        start.buffers_taken,
                        (self@.spares.len() - start.spares.len()) as nat,
                    ),
                    ..start
                }),
            decreases self.spare_slots - self.spares.len(),
        {
            let ghost before = self.spares@;
            match self.buffers.take_new() {
                Some(buffer) => {
                    self.buffers_taken = self.buffers_taken.saturating_add(1);
                    self.spares.push(buffer);
                    assert(contents(self.spares@) =~= contents(before).push(buffer@));
                    assert(start.spares.is_prefix_of(self@.spares));
                    assert(self@.arrived =~= start.arrived + self@.spares.skip(
                        start.spares.len() as int,
                    ));
                },
                None => {
                    return;
                },
            }
        }
    }

    /// Move everything the control thread sent into the waiting room. Bounded work: at most
    /// `SCHEDULED_SLOTS` pops, and nothing is lost: what does not fit stays in the queue.
    fn collect_commands(&mut self)
        requires
            old(self).wf(),
        ensures
            final(self).wf(),
            old(self)@.scheduled.is_prefix_of(final(self)@.scheduled),
            fetched(
                old(self)@.scheduled.len(),
                final(self)@.scheduled.len(),
                SCHEDULED_SLOTS as int,
                old(self)@.announced,
                final(self)@.announced,
            ),
            final(self)@ == (EngineModel {
                scheduled: final(self)@.scheduled,
                announced: final(self)@.announced,
                collected: old(self)@.collected + final(self)@.scheduled.skip(
                    old(self)@.scheduled.len() as int,
                ),
                ..old(self)@
            }),
            sent_back(old(self).buffers, final(self).buffers),
    {
        let ghost start = self@;
        assert(start.collected + start.scheduled.skip(start.scheduled.len() as int)
            =~= start.collected);
        while self.scheduled.len() < SCHEDULED_SLOTS
            invariant
                sent_back(old(self).buffers, self.buffers),
                start == old(self)@,
                self.wf(),
                start.scheduled.is_prefix_of(self@.scheduled),
                self@.scheduled.len() - start.scheduled.len() + self@.announced >= start.announced,
                self@ == (EngineModel {
                    scheduled: self@.scheduled,
                    announced: self@.announced,
                    collected: start.collected + self@.scheduled.skip(start.scheduled.len() as int),
                    ..start
                }),
            decreases SCHEDULED_SLOTS - self.scheduled.len(),
        {
            let ghost before = self@;
            match self.commands.pop() {
                Some(cmd) => {
                    self.scheduled.push(cmd);
                    assert(self@.scheduled =~= before.scheduled.push(cmd));
                    assert(self@.collected =~= start.collected + self@.scheduled.skip(
                        start.scheduled.len() as int,
                    ));
                },
                None => {
                    return;
                },
            }
        }
    }

    /// What happens first in every block: prepared buffers and commands are collected.
    pub fn begin_block(&mut self)
        requires
            old(self).wf(),
        ensures
            final(self).wf(),
            old(self)@.spares.is_prefix_of(final(self)@.spares),
            fetched(
                old(self)@.spares.len(),
                final(self)@.spares.len(),
                old(self)@.spare_slots as int,
                old(self)@.delivered,
                final(self)@.delivered,
            ),
            old(self)@.scheduled.is_prefix_of(final(self)@.scheduled),
            fetched(
                old(self)@.scheduled.len(),
                final(self)@.scheduled.len(),
                SCHEDULED_SLOTS as int,
                old(self)@.announced,
                final(self)@.announced,
            ),
            final(self)@.tracks.len() == old(self)@.tracks.len(),
            forall|t: int|
                0 <= t < old(self)@.tracks.len() ==> track_tuned(
                    #[trigger] old(self)@.tracks[t],
                    final(self)@.tracks[t],
                    old(self)@.timeline.tempo(),
                ),
            final(self)@ == (EngineModel {
                tracks: final(self)@.tracks,
                spares: final(self)@.spares,
                delivered: final(self)@.delivered,
                arrived: old(self)@.arrived + final(self)@.spares.skip(
                    old(self)@.spares.len() as int,
                ),
                buffers_taken: counted_by(
                    old(self)@.buffers_taken,
                    (final(self)@.spares.len() - old(self)@.spares.len()) as nat,
                ),
                scheduled: final(self)@.scheduled,
                announced: final(self)@.announced,
                collected: old(self)@.collected + final(self)@.scheduled.skip(
                    old(self)@.scheduled.len() as int,
                ),
                ..old(self)@
            }),
            handed_back(*old(self), *final(self)),
    {
        self.refill_spares();
        self.collect_commands();
        self.tune_chains();
    }

    /// How far a block of `len` frames, rendered up to `cursor`, is rendered before the next command
    /// acts.
    ///
    /// This is the heart of the sample accuracy: a command timed for the middle of the block takes
    /// effect exactly there, because the block is rendered as two segments with the command carried
    /// out in between. A command whose time has already passed acts right here rather than in the
    /// past.
    pub fn next_step(&self, cursor: usize, len: usize) -> (r: Step)
        requires
            cursor <= len,
            self@.out_pos + len <= u64::MAX,
        ensures
            match due_first(self@.scheduled, self@.out_pos + len) {
                Some(i) => {
                    let due = self@.scheduled[i].due();
                    &&& 0 <= i < self@.scheduled.len()
                    &&& r.command == Some(i as usize)
                    &&& r.boundary == (if due >= self@.out_pos + cursor {
                        due - self@.out_pos
                    } else {
                        cursor as int
                    })
                },
                None => r.command is None && r.boundary == len,
            },
            cursor <= r.boundary <= len,
            steps_to(
                self@.scheduled,
                self@.out_pos as int,
                cursor as int,
                len as int,
                r.boundary as int,
                r.command,
            ),
    {
        proof {
            lemma_step(self@.scheduled, self@.out_pos + len);
        }
        let due: Option<(usize, u64)> = next_due(
            &self.scheduled,
            self.out_pos + len as u64,
            self.out_pos + cursor as u64,
        );
        match due {
            Some((index, at)) => Step {
                boundary: (at - self.out_pos) as usize,
                command: Some(index),
            },
            None => Step { boundary: len, command: None },
        }
    }

    /// Take one command out of the waiting room and carry it out.
    pub fn carry_out(&mut self, index: usize)
        requires
            old(self).wf(),
            index < old(self)@.scheduled.len(),
        ensures
            final(self).wf(),
            ({
                let cmd = old(self)@.scheduled[index as int];
                let before = EngineModel {
                    scheduled: old(self)@.scheduled.remove(index as int),
                    ..old(self)@
                };
                match cmd.target() {
                    Some(track) if acts_on_chain(cmd) && track < before.tracks.len() => {
                        &&& chain_changed(
                            before.tracks[track as int].chain,
                            final(self)@.tracks[track as int].chain,
                            cmd,
                        )
                        &&& final(self)@ == before.with_track(
                            track as int,
                            TrackModel {
                                chain: final(self)@.tracks[track as int].chain,
                                ..before.tracks[track as int]
                            },
                        )
                    },
                    _ => final(self)@ == before.applied(cmd),
                }
            }),
            handed_back(*old(self), *final(self)),
    {
        let cmd: Command = self.scheduled.remove(index);
        assert(self@ =~= (EngineModel {
            scheduled: old(self)@.scheduled.remove(index as int),
            ..old(self)@
        }));
        self.apply(cmd);
        assert(sent_back(old(self).buffers, self.buffers));
    }

    /// What happens last in every block: the output is limited and metered, the input is recorded,
    /// both axes move on, and once in a while a snapshot is pushed.
    ///
    /// `input` holds the interleaved input frames consumed for this block. It may be shorter than
    /// the output when the input ran dry, and then simply fewer input frames are accounted for.
    pub fn end_block(&mut self, input: &[u32], output: &mut [u32])
        requires
            old(self).wf(),
            old(self)@.in_index + input@.len() <= u64::MAX,
            old(self)@.out_pos + old(output)@.len() < MAX_BEAT,
        ensures
            final(self).wf(),
            old(self)@.block_told(final(self)@, old(output)@.len()),
            final(output)@.len() == old(output)@.len(),
            forall|i: int|
                0 <= i < old(output)@.len() ==> #[trigger] final(output)@[i] == limited(
                    old(output)@[i],
                ),
            ({
                let done = old(self)@.metered(final(output)@).block_recorded(
                    input@,
                    old(self)@.tracks.len(),
                ).advanced(
                    old(output)@.len() as int,
                    input@.len() as int / (old(self)@.input_channels as int),
                );
                if old(self)@.since_status + old(output)@.len() >= old(self)@.status_interval {
                    &&& done.shown_by(final(self)@.offered.last())
                    &&& old(self)@.handed_out(
                        final(self)@.offered.last(),
                        final(self)@.published,
                        final(self)@.status_room,
                    )
                    &&& final(self)@ == (EngineModel {
                        published: final(self)@.published,
                        status_room: final(self)@.status_room,
                        ..done.after_snapshot(final(self)@.offered.last())
                    })
                } else {
                    final(self)@ == done
                }
            }),
            handed_back(*old(self), *final(self)),
    {
        let ghost start = self@;
        let frames: usize = input.len() / self.input_channels;
        let produced: u64 = output.len() as u64;
        self.clamp_and_meter(output);
        let ghost mid = self@;
        assert(sent_back(old(self).buffers, self.buffers));
        let ghost metered = self.buffers;
        self.record_input(input);
        assert(sent_back(metered, self.buffers));
        proof {
            lemma_recording_keeps_the_rest(mid, input@, mid.tracks.len());
            vstd::arithmetic::div_mod::lemma_div_nonincreasing(
                input@.len() as int,
                start.input_channels as int,
            );
        }
        self.out_pos = self.out_pos + produced;
        self.in_index = self.in_index + frames as u64;
        self.since_status = self.since_status + produced;
        if self.since_status >= self.status_interval {
            self.publish_status();
        }
    }
}

/// Recording changes tracks, buffers that went back and refusals, and nothing else.
proof fn lemma_recording_keeps_the_rest(m: EngineModel, input: Seq<u32>, n: nat)
    ensures
        ({
            let r = m.block_recorded(input, n);
            &&& r.out_pos == m.out_pos
            &&& r.in_index == m.in_index
            &&& r.since_status == m.since_status
            &&& r.status_interval == m.status_interval
            &&& r.input_channels == m.input_channels
            &&& r.offered == m.offered
            &&& r.published == m.published
            &&& r.status_room == m.status_room
        }),
    decreases n,
{
    if n > 0 {
        lemma_recording_keeps_the_rest(m, input, (n - 1) as nat);
    }
}

impl EngineCore {
    pub fn track(&self, index: usize) -> (r: &Track)
        requires
            index < self@.tracks.len(),
        ensures
            r@ == self@.tracks[index as int],
    {
        assert(self@.tracks[index as int] == self.tracks@[index as int]@);
        &self.tracks[index]
    }

    pub fn track_count(&self) -> (r: usize)
        ensures
            r == self@.tracks.len(),
    {
        self.tracks.len()
    }

    pub fn spare_count(&self) -> (r: usize)
        ensures
            r == self@.spares.len(),
    {
        self.spares.len()
    }

    /// Position of the next output frame.
    pub fn position(&self) -> (r: u64)
        ensures
            r == self@.out_pos,
    {
        self.out_pos
    }

    pub fn timeline(&self) -> (r: Timeline)
        ensures
            r == self@.timeline,
    {
        self.timeline
    }

    /// Whether the metronome sounds.
    pub fn click(&self) -> (r: bool)
        ensures
            r == self@.click,
    {
        self.click
    }

    pub fn bus_gain(&self, bus: Bus) -> (r: Single)
        ensures
            r == (match bus {
                Bus::Main => self@.main_gain,
                Bus::Monitor => self@.monitor_gain,
            }),
    {
        match bus {
            Bus::Main => self.main_gain,
            Bus::Monitor => self.monitor_gain,
        }
    }

    pub fn routing(&self) -> (r: BusRouting)
        ensures
            r@ == self@.routing,
    {
        self.routing
    }

    /// Whether a stop has been carried out.
    pub fn is_stopped(&self) -> (r: bool)
        ensures
            r == self@.stopped,
    {
        self.stopped
    }

    /// Remember the output level of one track. A track that does not exist has no meter.
    pub fn note_output_peak(&mut self, track: usize, magnitude: Single)
        requires
            old(self).wf(),
        ensures
            final(self).wf(),
            final(self)@ == old(self)@.peak_noted(track as int, magnitude),
            final(self)@ == (if track < old(self)@.tracks.len() {
                let before = old(self)@.tracks[track as int];
                old(self)@.with_track(
                    track as int,
                    TrackModel {
                        output_peak: if before.output_peak.lt(magnitude) {
                            magnitude
                        } else {
                            before.output_peak
                        },
                        ..before
                    },
                )
            } else {
                old(self)@
            }),
            handed_back(*old(self), *final(self)),
    {
        if track < self.tracks.len() {
            let ghost list = self.tracks@;
            let ghost t = track as int;
            assert(self@.tracks[t] == list[t]@);
            self.tracks[track].note_output_peak(magnitude);
            proof {
                lemma_models_update(list, t, self.tracks@[t]);
                assert(self.tracks@ =~= list.update(t, self.tracks@[t]));
            }
        }
    }
}

impl EngineCore {
    /// Remember the gain reduction of one track. A track that does not exist has no meter.
    pub fn note_reduction(&mut self, track: usize, db: Single)
        requires
            old(self).wf(),
        ensures
            final(self).wf(),
            final(self)@ == old(self)@.reduction_noted(track as int, db),
            final(self)@ == (if track < old(self)@.tracks.len() {
                let before = old(self)@.tracks[track as int];
                old(self)@.with_track(
                    track as int,
                    TrackModel {
                        reduction_db: if db.lt(before.reduction_db) {
                            db
                        } else {
                            before.reduction_db
                        },
                        ..before
                    },
                )
            } else {
                old(self)@
            }),
            handed_back(*old(self), *final(self)),
    {
        if track < self.tracks.len() {
            let ghost list = self.tracks@;
            let ghost t = track as int;
            assert(self@.tracks[t] == list[t]@);
            self.tracks[track].note_reduction(db);
            proof {
                lemma_models_update(list, t, self.tracks@[t]);
                assert(self.tracks@ =~= list.update(t, self.tracks@[t]));
            }
        }
    }
}

impl EngineCore {
    /// Whether a bus carries a source right now.
    pub fn carries(&self, bus: Bus, source: Source) -> (r: bool)
        requires
            self.wf(),
        ensures
            r == self@.carries(bus, source),
    {
        match source {
            Source::Click => self.click && bus == Bus::Monitor,
            Source::Loop(t) => {
                if t >= self.tracks.len() {
                    return false;
                }
                assert(self@.tracks[t as int] == self.tracks@[t as int]@);
                self.tracks[t].playing && self.tracks[t].mix.loop_send.on(bus)
            },
            Source::Input(t) => {
                if t >= self.tracks.len() {
                    return false;
                }
                assert(self@.tracks[t as int] == self.tracks@[t as int]@);
                self.tracks[t].monitor && self.tracks[t].mix.monitor_send.on(bus)
            },
        }
    }
}

// ---------------------------------------------------------------------------------------------
// Laws
// ---------------------------------------------------------------------------------------------

/// What an engine has given back is what goes through its queue back, in order.
pub proof fn what_went_back_is_in_the_queue(core: EngineCore)
    ensures
        core.given_back() == first_of(core@.links.returns, core.given_back().len()),
{
}

/// A removed layer comes back as it was: what was recorded into it, behind everything that went back
/// before.
pub proof fn a_removed_layer_goes_back_as_it_was(
    before: EngineCore,
    after: EngineCore,
    track: usize,
    layer: usize,
)
    requires
        track < before@.tracks.len(),
        before@.tracks[track as int].take is None,
        layer < before@.tracks[track as int].layers.len(),
        before.return_room() > 0,
        after@ == before@.applied(Command::RemoveLayer { track, layer }),
        handed_back(before, after),
    ensures
        after.given_back() == before.given_back().push(
            before@.tracks[track as int].layers[layer as int].samples,
        ),
        after.return_room() == before.return_room() - 1,
{
    let samples = before@.tracks[track as int].layers[layer as int].samples;
    let left = after@.returned.skip(before@.returned.len() as int);
    assert(left =~= seq![samples]);
    assert(before.given_back() + left =~= before.given_back().push(samples));
}

/// A command that is refused sends nothing back.
pub proof fn a_refusal_sends_nothing_back(before: EngineCore, after: EngineCore, reason: Refusal)
    requires
        after@ == before@.refused(reason),
        handed_back(before, after),
    ensures
        after.given_back() == before.given_back(),
        after.return_room() == before.return_room(),
{
    let left = after@.returned.skip(before@.returned.len() as int);
    assert(before.given_back() + left =~= before.given_back());
}

/// Clearing a track sends its buffers back, the one of a waiting take first and then the layers, the
/// newest first.
pub proof fn a_cleared_track_goes_back(before: EngineCore, after: EngineCore, track: usize, at: u64)
    requires
        track < before@.tracks.len(),
        before.return_room() >= held(before@.tracks[track as int]).len(),
        after@ == before@.applied(Command::ClearTrack { track, at }),
        handed_back(before, after),
    ensures
        after.given_back() == before.given_back() + held(before@.tracks[track as int]),
{
    let left = after@.returned.skip(before@.returned.len() as int);
    assert(left =~= held(before@.tracks[track as int]));
}

/// Commands are carried out on the very sample they are timed for: a block is rendered exactly up to
/// the first one that is due in it and no further. One that is late acts at once, and where nothing is
/// due the block is rendered to its end.
pub proof fn a_command_acts_on_its_own_sample(
    waiting: Seq<Command>,
    from: int,
    cursor: int,
    len: int,
    boundary: int,
    command: Option<usize>,
    j: int,
)
    requires
        0 <= cursor <= len,
        steps_to(waiting, from, cursor, len, boundary, command),
        0 <= j < waiting.len(),
    ensures
        cursor <= boundary <= len,
        command is None ==> boundary == len && waiting[j].due() >= from + len,
        command matches Some(i) ==> {
            &&& i < waiting.len()
            &&& waiting[i as int].due() >= from + cursor ==> from + boundary
                == waiting[i as int].due()
            &&& waiting[i as int].due() < from + cursor ==> boundary == cursor
            &&& waiting[j].due() >= waiting[i as int].due()
            &&& waiting[j].due() == waiting[i as int].due() ==> i <= j
        },
{
}

/// Nothing is left waiting while there is a slot for it.
pub proof fn nothing_waits_beside_a_free_slot(
    before: nat,
    after: nat,
    slots: int,
    known: nat,
    left: nat,
)
    requires
        fetched(before, after, slots, known, left),
    ensures
        left > 0 ==> after >= slots,
        known > 0 && before < slots ==> after > before || after >= slots,
        after >= before,
{
}

} // verus!
