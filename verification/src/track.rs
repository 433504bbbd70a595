//! One track: its layers, the loop they share, and the take that is being recorded.
//!
//! The first take defines the loop: its start is the origin and its length is the loop length.
//! Every further layer is written into the same loop, so all layers of a track line up by
//! construction: the frame for musical position `p` lies at `(p - origin) mod loop_len` in every one
//! of them.
//!
//! Nothing here creates or drops a layer buffer. Buffers arrive ready-made and leave the same way.
use vstd::prelude::*;
use crate::bus::BusSend;
use crate::command::{TrackLatency, TrackState};
use crate::fx::{preset_knobs, Chain, FxPreset};
use crate::single::Single;

verus! {

/// Layers one track can hold.
pub const MAX_LAYERS: usize = 32;

/// Bit pattern of the number 1.
pub const UNITY: u32 = 0x3f80_0000;

/// One recorded layer.
pub struct Layer {
    pub samples: Vec<u32>,
    pub muted: bool,
    pub gain: Single,
}

/// A layer, as mathematics.
#[verifier::ext_equal]
pub struct LayerModel {
    pub samples: Seq<u32>,
    pub muted: bool,
    pub gain: Single,
}

impl View for Layer {
    type V = LayerModel;

    open spec fn view(&self) -> LayerModel {
        LayerModel { samples: self.samples@, muted: self.muted, gain: self.gain }
    }
}

/// A recording in progress. It writes into the last layer.
#[derive(Clone, Copy, Debug, PartialEq, Eq, Structural)]
pub struct Take {
    /// Position of the first frame.
    pub start: u64,
    /// Position just after the last frame, once that is known.
    pub end: Option<u64>,
    /// Whether this take defines the loop, or is a further layer of one.
    pub defines_loop: bool,
}

/// A take that waits for the running one to finish.
pub struct Pending {
    pub start: u64,
    pub defines_loop: bool,
    pub buffer: Vec<u32>,
}

/// A waiting take, as mathematics.
#[verifier::ext_equal]
pub struct PendingModel {
    pub start: u64,
    pub defines_loop: bool,
    pub buffer: Seq<u32>,
}

impl View for Pending {
    type V = PendingModel;

    open spec fn view(&self) -> PendingModel {
        PendingModel { start: self.start, defines_loop: self.defines_loop, buffer: self.buffer@ }
    }
}

/// Where a track is heard and how it is compensated.
#[derive(Clone, Copy, Debug, PartialEq, Eq, Structural)]
pub struct Mix {
    pub pan: Single,
    pub loop_send: BusSend,
    pub monitor_send: BusSend,
    pub latency: TrackLatency,
}

/// A chain nobody has touched: bypassed, dry, and without a tempo.
pub open spec fn fresh_chain(chain: Chain, sample_rate: u32) -> bool {
    &&& chain.wf()
    &&& chain.rate() == sample_rate
    &&& chain.knobs() == preset_knobs(FxPreset::Dry)
    &&& chain.spec_preset() == FxPreset::Dry
    &&& chain.spec_bypass()
    &&& chain.tap().spec_tempo() is None
}

/// One track of the engine.
pub struct Track {
    /// Zero-based channel inside an input frame.
    pub input_channel: usize,
    pub monitor: bool,
    /// Whether monitoring was on when the engine was started.
    pub monitor_at_start: bool,
    pub playing: bool,
    pub layers: Vec<Layer>,
    pub origin: u64,
    /// 0 while nothing is recorded.
    pub loop_len: u64,
    pub filled: u64,
    pub take: Option<Take>,
    pub pending: Option<Pending>,
    pub input_peak: Single,
    pub output_peak: Single,
    /// Deepest gain reduction of the compressor since the last snapshot, in dB.
    pub reduction_db: Single,
    pub mix: Mix,
    pub chain: Chain,
}

/// A track, as mathematics.
#[verifier::ext_equal]
pub struct TrackModel {
    pub input_channel: usize,
    pub monitor: bool,
    pub monitor_at_start: bool,
    pub playing: bool,
    pub layers: Seq<LayerModel>,
    pub origin: u64,
    pub loop_len: u64,
    pub filled: u64,
    pub take: Option<Take>,
    pub pending: Option<PendingModel>,
    pub input_peak: Single,
    pub output_peak: Single,
    /// Deepest gain reduction of the compressor since the last snapshot, in dB.
    pub reduction_db: Single,
    pub mix: Mix,
    pub chain: Chain,
}

pub open spec fn layer_models(layers: Seq<Layer>) -> Seq<LayerModel> {
    layers.map_values(|layer: Layer| layer@)
}

pub open spec fn pending_model(pending: Option<Pending>) -> Option<PendingModel> {
    match pending {
        Some(pending) => Some(pending@),
        None => None,
    }
}

impl View for Track {
    type V = TrackModel;

    open spec fn view(&self) -> TrackModel {
        TrackModel {
            input_channel: self.input_channel,
            monitor: self.monitor,
            monitor_at_start: self.monitor_at_start,
            playing: self.playing,
            layers: layer_models(self.layers@),
            origin: self.origin,
            loop_len: self.loop_len,
            filled: self.filled,
            take: self.take,
            pending: pending_model(self.pending),
            input_peak: self.input_peak,
            output_peak: self.output_peak,
            reduction_db: self.reduction_db,
            mix: self.mix,
            chain: self.chain,
        }
    }
}

/// Position behind another one, as far as positions go.
pub open spec fn after(pos: u64, frames: int) -> u64 {
    if pos + frames > u64::MAX {
        u64::MAX
    } else {
        (pos + frames) as u64
    }
}

/// A prepared buffer as a new layer.
pub open spec fn new_layer(buffer: Seq<u32>) -> LayerModel {
    LayerModel { samples: buffer, muted: false, gain: Single { bits: UNITY } }
}

/// One bit per muted layer, the first layer lowest.
pub open spec fn mask_of(layers: Seq<LayerModel>) -> nat
    decreases layers.len(),
{
    if layers.len() == 0 {
        0
    } else {
        (if layers[0].muted {
            1nat
        } else {
            0nat
        }) + 2 * mask_of(layers.drop_first())
    }
}

/// Bit `i` of a mask.
pub open spec fn mask_bit(mask: nat, i: nat) -> bool
    decreases i,
{
    if i == 0 {
        mask % 2 == 1
    } else {
        mask_bit(mask / 2, (i - 1) as nat)
    }
}

/// Bit `layer` of a mask.
pub fn is_muted(mask: u32, layer: usize) -> (r: bool)
    ensures
        r == mask_bit(mask as nat, layer as nat),
{
    let mut rest: u32 = mask;
    let mut i: usize = 0;
    while i < layer
        invariant
            i <= layer,
            mask_bit(mask as nat, layer as nat) == mask_bit(rest as nat, (layer - i) as nat),
        decreases layer - i,
    {
        rest = rest / 2;
        i = i + 1;
    }
    rest % 2 == 1
}

impl TrackModel {
    /// A take writes into the last layer, so there is one; without layers there is no loop; without
    /// a take nothing is being filled; a chain stands inside its ranges.
    pub open spec fn wf(self) -> bool {
        &&& self.layers.len() <= MAX_LAYERS
        &&& self.take is Some ==> self.layers.len() > 0
        &&& self.layers.len() == 0 ==> self.loop_len == 0 && self.origin == 0
        &&& self.take is None ==> self.filled == 0
        &&& self.chain.wf()
    }

    /// How many layer buffers this track holds.
    pub open spec fn buffers(self) -> int {
        self.layers.len() + (if self.pending is Some {
            1int
        } else {
            0int
        })
    }

    /// What the track is doing, where the next input frame was played at `now`.
    pub open spec fn state_at(self, now: u64) -> TrackState {
        match self.take {
            Some(take) => if now < take.start {
                TrackState::Armed
            } else if take.defines_loop {
                TrackState::Recording
            } else {
                TrackState::Overdub
            },
            None => if self.loop_len == 0 {
                TrackState::Empty
            } else if self.playing {
                TrackState::Playing
            } else {
                TrackState::Ready
            },
        }
    }

    /// Whether the running take only waits for the tail of its input.
    pub open spec fn finishing(self) -> bool {
        self.take matches Some(take) && take.end is Some
    }

    /// Where a take that is never stopped ends: a loop-defining one with its buffer, a further
    /// layer after one pass through the loop.
    pub open spec fn limit(self) -> u64
        recommends
            self.take is Some,
            self.layers.len() > 0,
    {
        let take = self.take->0;
        if take.defines_loop {
            after(take.start, self.layers.last().samples.len() as int)
        } else {
            after(take.start, self.loop_len as int)
        }
    }

    /// The sample of a layer that sounds at a musical position.
    pub open spec fn heard(self, layer: int, pos: u64) -> u32 {
        if layer < self.layers.len() && self.loop_len > 0 && self.slot(pos)
            < self.layers[layer].samples.len() {
            self.layers[layer].samples[self.slot(pos)]
        } else {
            0
        }
    }

    /// The frame of a layer that holds a musical position.
    pub open spec fn slot(self, pos: u64) -> int {
        (pos - self.origin) % (self.loop_len as int)
    }

    /// The frame of the last layer that a take writes a position to.
    pub open spec fn write_slot(self, pos: u64) -> int {
        if self.take->0.defines_loop {
            pos - self.take->0.start
        } else {
            self.slot(pos)
        }
    }

    /// Whether a take has a frame for a position in its buffer.
    pub open spec fn writes(self, pos: u64) -> bool {
        &&& self.take->0.defines_loop || self.loop_len > 0
        &&& 0 <= self.write_slot(pos) < self.layers.last().samples.len()
    }

    /// One sample written into the running take.
    pub open spec fn recorded(self, pos: u64, sample: u32) -> TrackModel {
        if self.writes(pos) {
            let layer = self.layers.last();
            TrackModel {
                layers: self.layers.update(
                    self.layers.len() - 1,
                    LayerModel {
                        samples: layer.samples.update(self.write_slot(pos), sample),
                        ..layer
                    },
                ),
                filled: if self.take->0.defines_loop {
                    (self.write_slot(pos) + 1) as u64
                } else {
                    self.filled
                },
                ..self
            }
        } else {
            self
        }
    }

    /// The end of the running take is known from now on, and with it the length of a loop it
    /// defines.
    pub open spec fn stopped_at(self, at: u64) -> TrackModel {
        match self.take {
            Some(take) => if take.end is Some {
                self
            } else {
                let end = if at < take.start {
                    take.start
                } else if take.defines_loop && at > self.limit() {
                    self.limit()
                } else {
                    at
                };
                TrackModel {
                    take: Some(Take { end: Some(end), ..take }),
                    loop_len: if take.defines_loop {
                        (end - take.start) as u64
                    } else {
                        self.loop_len
                    },
                    ..self
                }
            },
            None => self,
        }
    }

    /// The running take is over.
    pub open spec fn finished_at(self, end: u64) -> TrackModel {
        match self.take {
            Some(take) => TrackModel {
                take: None,
                filled: 0,
                loop_len: if take.defines_loop && take.end is None && end >= take.start {
                    (end - take.start) as u64
                } else {
                    self.loop_len
                },
                ..self
            },
            None => self,
        }
    }

    /// A take opened with a new layer.
    pub open spec fn opened(self, start: u64, defines_loop: bool, buffer: Seq<u32>) -> TrackModel {
        TrackModel {
            layers: self.layers.push(new_layer(buffer)),
            take: Some(Take { start, end: None, defines_loop }),
            origin: if defines_loop {
                start
            } else {
                self.origin
            },
            loop_len: if defines_loop {
                0
            } else {
                self.loop_len
            },
            filled: if defines_loop {
                0
            } else {
                self.filled
            },
            ..self
        }
    }

    /// What is left without layers: no loop.
    pub open spec fn emptied_if_bare(self) -> TrackModel {
        if self.layers.len() == 0 {
            TrackModel { loop_len: 0, origin: 0, filled: 0, ..self }
        } else {
            self
        }
    }
}

impl Track {
    pub open spec fn wf(self) -> bool {
        self@.wf()
    }

    /// An empty track on one input channel.
    pub fn new(input_channel: usize, monitor: bool, sample_rate: u32) -> (r: Self)
        ensures
            r.wf(),
            r@.input_channel == input_channel,
            r@.monitor == monitor,
            r@.monitor_at_start == monitor,
            !r@.playing,
            r@.layers == Seq::<LayerModel>::empty(),
            r@.origin == 0,
            r@.loop_len == 0,
            r@.filled == 0,
            r@.take is None,
            r@.pending is None,
            r@.input_peak == (Single { bits: 0 }),
            r@.output_peak == (Single { bits: 0 }),
            r@.reduction_db == (Single { bits: 0 }),
            r@.mix == (Mix {
                pan: Single { bits: 0 },
                loop_send: BusSend::Both,
                monitor_send: BusSend::Both,
                latency: TrackLatency { measured: None, trim: 0 },
            }),
            fresh_chain(r@.chain, sample_rate),
    {
        let r = Track {
            input_channel,
            monitor,
            monitor_at_start: monitor,
            playing: false,
            layers: Vec::new(),
            origin: 0,
            loop_len: 0,
            filled: 0,
            take: None,
            pending: None,
            input_peak: Single { bits: 0 },
            output_peak: Single { bits: 0 },
            reduction_db: Single { bits: 0 },
            mix: Mix {
                pan: Single { bits: 0 },
                loop_send: BusSend::Both,
                monitor_send: BusSend::Both,
                latency: TrackLatency::inherited(),
            },
            chain: Chain::new(sample_rate),
        };
        assert(r@.layers =~= Seq::<LayerModel>::empty());
        r
    }

    pub fn layer_count(&self) -> (r: usize)
        ensures
            r == self@.layers.len(),
    {
        self.layers.len()
    }

    /// Whether there is a loop.
    pub fn has_content(&self) -> (r: bool)
        ensures
            r == (self@.loop_len > 0),
    {
        self.loop_len > 0
    }

    /// What this track is doing, where the next input frame was played at `now`.
    pub fn state(&self, now: u64) -> (r: TrackState)
        ensures
            r == self@.state_at(now),
    {
        match self.take {
            Some(take) => {
                if now < take.start {
                    TrackState::Armed
                } else if take.defines_loop {
                    TrackState::Recording
                } else {
                    TrackState::Overdub
                }
            },
            None => {
                if self.loop_len == 0 {
                    TrackState::Empty
                } else if self.playing {
                    TrackState::Playing
                } else {
                    TrackState::Ready
                }
            },
        }
    }

    /// Whether the running take only waits for the tail of its input.
    pub fn take_is_finishing(&self) -> (r: bool)
        ensures
            r == self@.finishing(),
    {
        match self.take {
            Some(take) => take.end.is_some(),
            None => false,
        }
    }

    /// Where the running take ends if it is never stopped.
    pub fn take_limit(&self) -> (r: Option<u64>)
        requires
            self.wf(),
        ensures
            r == (if self@.take is Some {
                Some(self@.limit())
            } else {
                None
            }),
    {
        match self.take {
            Some(take) => {
                if take.defines_loop {
                    assert(self@.layers.last() == self.layers@[self.layers@.len() - 1]@);
                    let len: usize = self.layers[self.layers.len() - 1].samples.len();
                    Some(take.start.saturating_add(len as u64))
                } else {
                    Some(take.start.saturating_add(self.loop_len))
                }
            },
            None => None,
        }
    }

    /// The frame of every layer that holds musical position `pos`, if there is a loop.
    pub fn read_index(&self, pos: u64) -> (r: Option<u64>)
        ensures
            r == (if self@.loop_len > 0 {
                Some(self@.slot(pos) as u64)
            } else {
                None
            }),
            r matches Some(slot) ==> slot < self@.loop_len,
    {
        if self.loop_len == 0 {
            return None;
        }
        Some(loop_slot(pos, self.origin, self.loop_len))
    }

    /// One sample of one layer at a musical position: what was recorded there, or silence where the
    /// buffer is shorter than the loop or the layer does not exist.
    pub fn layer_sample(&self, layer: usize, pos: u64) -> (r: u32)
        ensures
            r == self@.heard(layer as int, pos),
            r == (if layer < self@.layers.len() && self@.loop_len > 0 && self@.slot(pos)
                < self@.layers[layer as int].samples.len() {
                self@.layers[layer as int].samples[self@.slot(pos)]
            } else {
                0
            }),
    {
        if layer >= self.layers.len() {
            return 0;
        }
        assert(self@.layers[layer as int] == self.layers@[layer as int]@);
        match self.read_index(pos) {
            Some(slot) => {
                if slot < self.layers[layer].samples.len() as u64 {
                    self.layers[layer].samples[slot as usize]
                } else {
                    0
                }
            },
            None => 0,
        }
    }

    /// Write one sample into the running take, if its buffer has a frame for that position.
    pub fn write(&mut self, pos: u64, sample: u32)
        requires
            old(self).wf(),
            old(self)@.take is Some,
            pos >= old(self)@.take->0.start,
        ensures
            final(self).wf(),
            final(self)@ == old(self)@.recorded(pos, sample),
    {
        let take: Take = match self.take {
            Some(take) => take,
            None => {
                return;
            },
        };
        if !take.defines_loop && self.loop_len == 0 {
            return;
        }
        let slot: u64 = if take.defines_loop {
            pos - take.start
        } else {
            loop_slot(pos, self.origin, self.loop_len)
        };
        let last: usize = self.layers.len() - 1;
        assert(self@.layers.last() == self.layers@[last as int]@);
        if slot >= self.layers[last].samples.len() as u64 {
            return;
        }
        let ghost before = self.layers@;
        self.layers[last].samples[slot as usize] = sample;
        assert(layer_models(self.layers@) =~= layer_models(before).update(
            last as int,
            LayerModel {
                samples: layer_models(before)[last as int].samples.update(slot as int, sample),
                ..layer_models(before)[last as int]
            },
        ));
        if take.defines_loop {
            self.filled = slot + 1;
        }
        assert(self@ =~= old(self)@.recorded(pos, sample));
    }

    /// The take ends at `at`. A take cannot end before it starts, and a loop cannot be longer than
    /// its buffer. Only the first stop counts.
    pub fn set_take_end(&mut self, at: u64)
        requires
            old(self).wf(),
        ensures
            final(self).wf(),
            final(self)@ == old(self)@.stopped_at(at),
    {
        let limit: Option<u64> = self.take_limit();
        if let Some(take) = self.take {
            if take.end.is_none() {
                let most: u64 = match limit {
                    Some(limit) => limit,
                    None => at,
                };
                let end: u64 = if at < take.start {
                    take.start
                } else if take.defines_loop && at > most {
                    most
                } else {
                    at
                };
                self.take = Some(Take { end: Some(end), ..take });
                if take.defines_loop {
                    self.loop_len = end - take.start;
                }
            }
        }
        assert(self@ =~= old(self)@.stopped_at(at));
    }

    /// Close the running take.
    pub fn finish_take(&mut self, end: u64)
        requires
            old(self).wf(),
        ensures
            final(self).wf(),
            final(self)@ == old(self)@.finished_at(end),
    {
        if let Some(take) = self.take {
            if take.defines_loop && take.end.is_none() && end >= take.start {
                self.loop_len = end - take.start;
            }
            self.take = None;
            self.filled = 0;
        }
        assert(self@ =~= old(self)@.finished_at(end));
    }

    fn open_take(&mut self, start: u64, defines_loop: bool, buffer: Vec<u32>)
        requires
            old(self).wf(),
            old(self)@.layers.len() < MAX_LAYERS,
        ensures
            final(self).wf(),
            final(self)@ == old(self)@.opened(start, defines_loop, buffer@),
    {
        let ghost before = self.layers@;
        let layer = Layer { samples: buffer, muted: false, gain: Single { bits: UNITY } };
        let ghost model = layer@;
        self.layers.push(layer);
        assert(layer_models(self.layers@) =~= layer_models(before).push(model));
        self.take = Some(Take { start, end: None, defines_loop });
        if defines_loop {
            self.origin = start;
            self.loop_len = 0;
            self.filled = 0;
        }
        assert(self@ =~= old(self)@.opened(start, defines_loop, buffer@));
    }

    /// Open a take that defines the loop.
    pub fn begin_loop_take(&mut self, start: u64, buffer: Vec<u32>)
        requires
            old(self).wf(),
            old(self)@.layers.len() < MAX_LAYERS,
        ensures
            final(self).wf(),
            final(self)@ == old(self)@.opened(start, true, buffer@),
    {
        self.open_take(start, true, buffer);
    }

    /// Open a take that adds a layer to the loop.
    pub fn begin_overdub_take(&mut self, start: u64, buffer: Vec<u32>)
        requires
            old(self).wf(),
            old(self)@.layers.len() < MAX_LAYERS,
        ensures
            final(self).wf(),
            final(self)@ == old(self)@.opened(start, false, buffer@),
    {
        self.open_take(start, false, buffer);
    }

    /// Queue a take behind the one that is finishing. A take that was queued before gives its
    /// buffer back.
    pub fn set_pending(&mut self, start: u64, defines_loop: bool, buffer: Vec<u32>) -> (r: Option<
        Vec<u32>,
    >)
        requires
            old(self).wf(),
        ensures
            final(self).wf(),
            final(self)@ == (TrackModel {
                pending: Some(PendingModel { start, defines_loop, buffer: buffer@ }),
                ..old(self)@
            }),
            r is Some <==> old(self)@.pending is Some,
            r matches Some(previous) ==> previous@ == old(self)@.pending->0.buffer,
    {
        let previous: Option<Vec<u32>> = self.take_pending_buffer();
        self.pending = Some(Pending { start, defines_loop, buffer });
        assert(self@ =~= (TrackModel {
            pending: Some(PendingModel { start, defines_loop, buffer: buffer@ }),
            ..old(self)@
        }));
        previous
    }

    /// Give the buffer of the queued take back and forget that take.
    pub fn take_pending_buffer(&mut self) -> (r: Option<Vec<u32>>)
        requires
            old(self).wf(),
        ensures
            final(self).wf(),
            final(self)@ == (TrackModel { pending: None, ..old(self)@ }),
            r is Some <==> old(self)@.pending is Some,
            r matches Some(previous) ==> previous@ == old(self)@.pending->0.buffer,
    {
        let pending: Option<Pending> = self.pending.take();
        assert(self@ =~= (TrackModel { pending: None, ..old(self)@ }));
        match pending {
            Some(pending) => Some(pending.buffer),
            None => None,
        }
    }

    /// Whether the queued take starts a completely new loop.
    pub fn pending_defines_loop(&self) -> (r: bool)
        ensures
            r == (self@.pending matches Some(pending) && pending.defines_loop),
    {
        match &self.pending {
            Some(pending) => pending.defines_loop,
            None => false,
        }
    }

    /// Start the queued take, if there is one. Its buffer comes back if the track is full.
    pub fn promote_pending(&mut self) -> (r: Option<Vec<u32>>)
        requires
            old(self).wf(),
        ensures
            final(self).wf(),
            match old(self)@.pending {
                Some(pending) => if old(self)@.layers.len() < MAX_LAYERS {
                    &&& r is None
                    &&& final(self)@ == (TrackModel { pending: None, ..old(self)@ }).opened(
                        pending.start,
                        pending.defines_loop,
                        pending.buffer,
                    )
                } else {
                    &&& r matches Some(back) && back@ == pending.buffer
                    &&& final(self)@ == (TrackModel { pending: None, ..old(self)@ })
                },
                None => r is None && final(self)@ == old(self)@,
            },
    {
        let pending: Option<Pending> = self.pending.take();
        assert(self@ =~= (TrackModel { pending: None, ..old(self)@ }));
        match pending {
            Some(pending) => {
                if self.layers.len() >= MAX_LAYERS {
                    return Some(pending.buffer);
                }
                self.open_take(pending.start, pending.defines_loop, pending.buffer);
                None
            },
            None => None,
        }
    }

    /// Forget the running take. What it wrote so far stays in its layer.
    pub fn cancel_take(&mut self)
        requires
            old(self).wf(),
        ensures
            final(self).wf(),
            final(self)@ == (TrackModel { take: None, filled: 0, ..old(self)@ }),
    {
        self.take = None;
        self.filled = 0;
        assert(self@ =~= (TrackModel { take: None, filled: 0, ..old(self)@ }));
    }

    /// Take the last layer off. With the last one the loop is gone.
    pub fn pop_layer(&mut self) -> (r: Option<Vec<u32>>)
        requires
            old(self).wf(),
            old(self)@.take is None,
        ensures
            final(self).wf(),
            r is Some <==> old(self)@.layers.len() > 0,
            r matches Some(buffer) ==> buffer@ == old(self)@.layers.last().samples,
            final(self)@ == (if old(self)@.layers.len() > 0 {
                (TrackModel { layers: old(self)@.layers.drop_last(), ..old(self)@ }).emptied_if_bare()
            } else {
                old(self)@
            }),
    {
        let ghost before = self.layers@;
        match self.layers.pop() {
            Some(layer) => {
                assert(layer_models(self.layers@) =~= layer_models(before).drop_last());
                if self.layers.len() == 0 {
                    self.loop_len = 0;
                    self.origin = 0;
                    self.filled = 0;
                }
                Some(layer.samples)
            },
            None => None,
        }
    }

    /// Take one layer out. With the last one the loop is gone and playback with it.
    pub fn remove_layer(&mut self, layer: usize) -> (r: Option<Vec<u32>>)
        requires
            old(self).wf(),
            old(self)@.take is None,
        ensures
            final(self).wf(),
            r is Some <==> layer < old(self)@.layers.len(),
            r matches Some(buffer) ==> buffer@ == old(self)@.layers[layer as int].samples,
            final(self)@ == (if layer < old(self)@.layers.len() {
                let left = TrackModel {
                    layers: old(self)@.layers.remove(layer as int),
                    ..old(self)@
                };
                if left.layers.len() == 0 {
                    TrackModel { playing: false, ..left.emptied_if_bare() }
                } else {
                    left
                }
            } else {
                old(self)@
            }),
    {
        if layer >= self.layers.len() {
            return None;
        }
        let ghost before = self.layers@;
        let removed: Layer = self.layers.remove(layer);
        assert(layer_models(self.layers@) =~= layer_models(before).remove(layer as int));
        assert(layer_models(before)[layer as int] == before[layer as int]@);
        if self.layers.len() == 0 {
            self.loop_len = 0;
            self.origin = 0;
            self.filled = 0;
            self.playing = false;
        }
        Some(removed.samples)
    }

    /// Mute or unmute one layer. False if it does not exist.
    pub fn set_layer_muted(&mut self, layer: usize, muted: bool) -> (r: bool)
        requires
            old(self).wf(),
        ensures
            final(self).wf(),
            r == (layer < old(self)@.layers.len()),
            final(self)@ == (if r {
                TrackModel {
                    layers: old(self)@.layers.update(
                        layer as int,
                        LayerModel { muted, ..old(self)@.layers[layer as int] },
                    ),
                    ..old(self)@
                }
            } else {
                old(self)@
            }),
    {
        if layer >= self.layers.len() {
            return false;
        }
        let ghost before = self.layers@;
        self.layers[layer].muted = muted;
        assert(layer_models(self.layers@) =~= layer_models(before).update(
            layer as int,
            LayerModel { muted, ..layer_models(before)[layer as int] },
        ));
        true
    }

    /// Set the gain of one layer. False if it does not exist.
    pub fn set_layer_gain(&mut self, layer: usize, gain: Single) -> (r: bool)
        requires
            old(self).wf(),
        ensures
            final(self).wf(),
            r == (layer < old(self)@.layers.len()),
            final(self)@ == (if r {
                TrackModel {
                    layers: old(self)@.layers.update(
                        layer as int,
                        LayerModel { gain, ..old(self)@.layers[layer as int] },
                    ),
                    ..old(self)@
                }
            } else {
                old(self)@
            }),
    {
        if layer >= self.layers.len() {
            return false;
        }
        let ghost before = self.layers@;
        self.layers[layer].gain = gain;
        assert(layer_models(self.layers@) =~= layer_models(before).update(
            layer as int,
            LayerModel { gain, ..layer_models(before)[layer as int] },
        ));
        true
    }

    /// One bit per muted layer.
    pub fn muted_mask(&self) -> (r: u32)
        requires
            self.wf(),
        ensures
            r == mask_of(self@.layers),
    {
        let n: usize = self.layers.len();
        let mut mask: u64 = 0;
        let mut i: usize = n;
        let ghost all = self@.layers;
        assert(all.subrange(n as int, n as int).len() == 0);
        proof {
            vstd::arithmetic::power2::lemma2_to64();
        }
        while i > 0
            invariant
                i <= n <= MAX_LAYERS,
                n == self.layers@.len(),
                all == self@.layers,
                mask == mask_of(all.subrange(i as int, n as int)),
                mask < vstd::arithmetic::power2::pow2((n - i) as nat),
            decreases i,
        {
            i = i - 1;
            let ghost tail = all.subrange(i as int, n as int);
            assert(tail.drop_first() =~= all.subrange(i + 1, n as int));
            assert(tail[0] == self.layers@[i as int]@);
            proof {
                vstd::arithmetic::power2::lemma_pow2_unfold((n - i) as nat);
                if n - i < 32 {
                    vstd::arithmetic::power2::lemma_pow2_strictly_increases((n - i) as nat, 32);
                }
                vstd::arithmetic::power2::lemma2_to64();
            }
            mask = 2 * mask + (if self.layers[i].muted {
                1u64
            } else {
                0u64
            });
        }
        assert(all.subrange(0, n as int) =~= all);
        proof {
            if n < 32 {
                vstd::arithmetic::power2::lemma_pow2_strictly_increases(n as nat, 32);
            }
            vstd::arithmetic::power2::lemma2_to64();
        }
        mask as u32
    }

    /// Back to how this track was started, as far as switches go.
    pub fn restore_defaults(&mut self)
        requires
            old(self).wf(),
        ensures
            final(self).wf(),
            final(self)@ == (TrackModel {
                monitor: old(self)@.monitor_at_start,
                ..old(self)@
            }),
    {
        self.monitor = self.monitor_at_start;
        assert(self@ =~= (TrackModel { monitor: old(self)@.monitor_at_start, ..old(self)@ }));
    }

    /// Remember an input level if it is the loudest so far.
    pub fn note_input_peak(&mut self, magnitude: Single)
        ensures
            final(self)@ == (TrackModel {
                input_peak: if old(self)@.input_peak.lt(magnitude) {
                    magnitude
                } else {
                    old(self)@.input_peak
                },
                ..old(self)@
            }),
    {
        if self.input_peak.below(magnitude) {
            self.input_peak = magnitude;
        }
    }

    /// Remember an output level if it is the loudest so far.
    pub fn note_output_peak(&mut self, magnitude: Single)
        ensures
            final(self)@ == (TrackModel {
                output_peak: if old(self)@.output_peak.lt(magnitude) {
                    magnitude
                } else {
                    old(self)@.output_peak
                },
                ..old(self)@
            }),
    {
        if self.output_peak.below(magnitude) {
            self.output_peak = magnitude;
        }
    }
}

impl Track {
    /// Remember a gain reduction if it is the deepest so far.
    pub fn note_reduction(&mut self, db: Single)
        ensures
            final(self)@ == (TrackModel {
                reduction_db: if db.lt(old(self)@.reduction_db) {
                    db
                } else {
                    old(self)@.reduction_db
                },
                ..old(self)@
            }),
    {
        if db.below(self.reduction_db) {
            self.reduction_db = db;
        }
    }
}

/// `(pos - origin) mod len`, also for positions before the origin.
fn loop_slot(pos: u64, origin: u64, len: u64) -> (r: u64)
    requires
        len > 0,
    ensures
        r == (pos - origin) % (len as int),
        r < len,
{
    if pos >= origin {
        (pos - origin) % len
    } else {
        let back: u64 = (origin - pos) % len;
        proof {
            let d: int = (origin - pos) as int;
            let l: int = len as int;
            vstd::arithmetic::div_mod::lemma_fundamental_div_mod(d, l);
            if back == 0 {
                assert(-d == (-(d / l)) * l + 0) by (nonlinear_arith)
                    requires
                        d == l * (d / l) + 0,
                ;
                vstd::arithmetic::div_mod::lemma_fundamental_div_mod_converse(-d, l, -(d / l), 0);
            } else {
                assert(-d == (-(d / l) - 1) * l + (l - back)) by (nonlinear_arith)
                    requires
                        d == l * (d / l) + back,
                ;
                vstd::arithmetic::div_mod::lemma_fundamental_div_mod_converse(
                    -d,
                    l,
                    -(d / l) - 1,
                    l - back,
                );
            }
        }
        if back == 0 {
            0
        } else {
            len - back
        }
    }
}

// ---------------------------------------------------------------------------------------------
// Laws
// ---------------------------------------------------------------------------------------------

/// The mute mask holds one bit per layer.
pub proof fn the_mask_shows_every_layer(layers: Seq<LayerModel>, i: int)
    requires
        0 <= i < layers.len(),
    ensures
        mask_bit(mask_of(layers), i as nat) == layers[i].muted,
    decreases i,
{
    if i > 0 {
        the_mask_shows_every_layer(layers.drop_first(), i - 1);
        assert(layers.drop_first()[i - 1] == layers[i]);
        assert(mask_of(layers) / 2 == mask_of(layers.drop_first()));
    }
}

/// What a loop-defining take writes is found again at the same musical position once the loop runs:
/// the frame a position is written to is the frame it is read from, on every pass.
pub proof fn a_recorded_position_is_read_on_every_pass(track: TrackModel, pos: u64, pass: int)
    requires
        track.loop_len > 0,
        track.origin <= pos < track.origin + track.loop_len,
        pass >= 0,
        pos + pass * track.loop_len <= u64::MAX,
    ensures
        track.slot((pos + pass * track.loop_len) as u64) == pos - track.origin,
{
    let l = track.loop_len as int;
    let x = pos - track.origin;
    assert(pass * l >= 0) by (nonlinear_arith)
        requires
            pass >= 0,
            l > 0,
    ;
    assert(x + pass * l == pass * l + x);
    vstd::arithmetic::div_mod::lemma_fundamental_div_mod_converse(x + pass * l, l, pass, x);
}

/// A take never writes into a layer that was there before it: only the last layer changes.
pub proof fn recording_leaves_earlier_layers_alone(
    track: TrackModel,
    pos: u64,
    sample: u32,
    layer: int,
)
    requires
        track.wf(),
        track.take is Some,
        0 <= layer < track.layers.len() - 1,
    ensures
        track.recorded(pos, sample).layers[layer] == track.layers[layer],
        track.recorded(pos, sample).layers.len() == track.layers.len(),
{
}

/// A track is in the state its takes and layers put it in: armed before a take starts, recording or
/// overdubbing while it runs, and otherwise empty, ready or playing by what it holds.
pub proof fn a_track_is_in_the_state_it_shows(track: TrackModel, now: u64)
    ensures
        track.state_at(now) == TrackState::Armed <==> (track.take is Some && now
            < track.take->0.start),
        track.state_at(now) == TrackState::Recording <==> (track.take is Some && now
            >= track.take->0.start && track.take->0.defines_loop),
        track.state_at(now) == TrackState::Overdub <==> (track.take is Some && now
            >= track.take->0.start && !track.take->0.defines_loop),
        track.state_at(now) == TrackState::Empty <==> (track.take is None && track.loop_len == 0),
        track.state_at(now) == TrackState::Playing <==> (track.take is None && track.loop_len > 0
            && track.playing),
        track.state_at(now) == TrackState::Ready <==> (track.take is None && track.loop_len > 0
            && !track.playing),
{
}

/// One sample goes to one frame of the last layer and to no other, and a loop that is being recorded
/// has as many frames as were written.
pub proof fn a_sample_goes_to_one_frame(track: TrackModel, pos: u64, sample: u32, i: int)
    requires
        track.take is Some,
        track.layers.len() > 0,
        track.writes(pos),
        0 <= i < track.layers.last().samples.len(),
    ensures
        ({
            let after = track.recorded(pos, sample);
            let frame = if track.take->0.defines_loop {
                pos - track.take->0.start
            } else {
                (pos - track.origin) % (track.loop_len as int)
            };
            &&& after.layers.last().samples[i] == (if i == frame {
                sample
            } else {
                track.layers.last().samples[i]
            })
            &&& after.layers.last().muted == track.layers.last().muted
            &&& after.layers.last().gain == track.layers.last().gain
            &&& track.take->0.defines_loop && frame < u64::MAX ==> after.filled == frame + 1
            &&& after.take == track.take
            &&& after.loop_len == track.loop_len
            &&& after.origin == track.origin
        }),
{
}

/// A take that is never stopped ends with its buffer if it defines the loop, and after one pass if it
/// is a further layer.
pub proof fn a_take_has_a_limit(track: TrackModel)
    requires
        track.take is Some,
        track.layers.len() > 0,
        track.take->0.start + track.layers.last().samples.len() <= u64::MAX,
        track.take->0.start + track.loop_len <= u64::MAX,
    ensures
        track.take->0.defines_loop ==> track.limit() == track.take->0.start
            + track.layers.last().samples.len(),
        !track.take->0.defines_loop ==> track.limit() == track.take->0.start + track.loop_len,
{
}

/// A loop plays its frames in order, round and round: the frame that lies `i` behind the start of the
/// loop sounds at every position that lies `i` behind the start of a pass. A layer that does not
/// exist is silent.
pub proof fn a_loop_plays_its_frames_in_order(track: TrackModel, layer: int, i: int, pass: int)
    requires
        0 <= layer < track.layers.len(),
        0 <= i < track.loop_len,
        i < track.layers[layer].samples.len(),
        pass >= 0,
        track.origin + i + pass * track.loop_len <= u64::MAX,
    ensures
        track.heard(layer, (track.origin + i + pass * track.loop_len) as u64)
            == track.layers[layer].samples[i],
        track.heard(track.layers.len() as int, (track.origin + i) as u64) == 0,
{
    assert(pass * track.loop_len >= 0) by (nonlinear_arith)
        requires
            pass >= 0,
            track.loop_len > 0,
    ;
    a_recorded_position_is_read_on_every_pass(track, (track.origin + i) as u64, pass);
}

/// Frames that were never recorded are silent, and so is a track without a loop.
pub proof fn what_was_not_recorded_is_silent(track: TrackModel, layer: int, pos: u64)
    requires
        0 <= layer < track.layers.len(),
    ensures
        track.loop_len == 0 ==> track.heard(layer, pos) == 0,
        track.slot(pos) >= track.layers[layer].samples.len() ==> track.heard(layer, pos) == 0,
{
}

} // verus!
