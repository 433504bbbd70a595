//! The queue between the input callback and the output callback.
//!
//! Whole frames only: half a frame in the queue would shift every channel of every later recording
//! against each other.
use vstd::prelude::*;
use crate::command::agree;
use crate::queue;
use crate::single::Single;

verus! {

/// Queue length in multiples of the audio buffer: a few dozen kB, and the difference between a
/// hiccup and a permanently misaligned recording.
pub const INPUT_FIFO_BUFFERS: u32 = 64;

/// Queue length of the monitoring path in multiples of the audio buffer. Every sample sitting there
/// is added latency, so this is deliberately tight.
pub const RING_BUFFERS: u32 = 4;

/// The end the input callback writes to.
pub struct FrameWriter {
    tx: rtrb::Producer<u32>,
    channels: usize,
    offered: Ghost<Seq<u32>>,
}

/// The end the output callback reads from.
pub struct FrameReader {
    rx: rtrb::Consumer<u32>,
    channels: usize,
}

/// A queue for `frames` frames of `channels` samples.
pub fn frame_queue(frames: usize, channels: usize) -> (r: (FrameWriter, FrameReader))
    requires
        channels > 0,
        frames * channels <= 0x1000_0000,
    ensures
        r.0.queue() == r.1.queue(),
        r.0.width() == channels,
        r.1.width() == channels,
        r.0.room() == frames * channels,
        r.0.written() == Seq::<u32>::empty(),
        r.1.taken() == Seq::<u32>::empty(),
{
    assert(frames * channels >= 0) by (nonlinear_arith)
        requires
            frames >= 0,
            channels >= 0,
    ;
    let (tx, rx) = queue::sample_ring(frames * channels);
    (FrameWriter { tx, channels, offered: Ghost(Seq::empty()) }, FrameReader { rx, channels })
}

/// The first samples of the first `n` frames of a block.
pub open spec fn first_channel(data: Seq<u32>, channels: int, n: nat) -> Seq<u32> {
    Seq::new(n, |i: int| data[i * channels])
}

/// The samples a queue took, where `accepted` says which ones found room.
pub open spec fn kept(samples: Seq<u32>, accepted: Seq<bool>) -> Seq<u32>
    decreases samples.len(),
{
    if samples.len() == 0 {
        Seq::empty()
    } else if accepted[samples.len() - 1] {
        kept(samples.drop_last(), accepted).push(samples.last())
    } else {
        kept(samples.drop_last(), accepted)
    }
}

/// The loudest of some samples, without their signs. What is not a number counts as
/// silence.
pub open spec fn loudest_of(samples: Seq<u32>) -> Single
    decreases samples.len(),
{
    if samples.len() == 0 {
        Single { bits: 0 }
    } else {
        let before = loudest_of(samples.drop_last());
        let now = (Single { bits: samples.last() }).unsigned();
        if before.lt(now) {
            now
        } else {
            before
        }
    }
}

proof fn lemma_frames(len: int, channels: int)
    requires
        channels > 0,
        len >= 0,
    ensures
        0 <= len / channels,
        (len / channels) * channels <= len,
        len < (len / channels + 1) * channels,
{
    vstd::arithmetic::div_mod::lemma_fundamental_div_mod(len, channels);
    vstd::arithmetic::div_mod::lemma_mod_bound(len, channels);
    vstd::arithmetic::div_mod::lemma_div_pos_is_pos(len, channels);
    assert((len / channels) * channels == channels * (len / channels)) by (nonlinear_arith);
    assert((len / channels + 1) * channels == channels * (len / channels) + channels)
        by (nonlinear_arith);
}

proof fn lemma_inside(frame: int, frames: int, channels: int, len: int, c: int)
    requires
        0 <= frame < frames,
        0 <= c < channels,
        frames * channels <= len,
    ensures
        0 <= frame * channels + c < len,
        frame * channels + channels <= len,
        frame * channels + channels == (frame + 1) * channels,
{
    assert(0 <= frame * channels) by (nonlinear_arith)
        requires
            0 <= frame,
            0 < channels,
    ;
    assert(frame * channels + channels <= frames * channels) by (nonlinear_arith)
        requires
            frame + 1 <= frames,
            0 < channels,
    ;
    assert(frame * channels + channels == (frame + 1) * channels) by (nonlinear_arith);
}

impl FrameWriter {
    pub closed spec fn width(self) -> int {
        self.channels as int
    }

    /// Everything that goes through the queue behind this end.
    pub closed spec fn queue(self) -> Map<int, u32> {
        queue::through_writer(self.tx)
    }

    /// How many samples were put into the queue.
    pub closed spec fn count(self) -> nat {
        queue::written_count(self.tx)
    }

    /// Everything that was put into the queue, oldest first.
    pub open spec fn written(self) -> Seq<u32> {
        queue::first_of(self.queue(), self.count())
    }

    /// How many more samples are certain to find room.
    pub closed spec fn room(self) -> nat {
        queue::seen_free(self.tx)
    }

    /// The samples that were offered to the queue so far, oldest first, whether they found room or
    /// not.
    pub closed spec fn offered(self) -> Seq<u32> {
        self.offered@
    }

    /// Offer one sample to the queue. The result is whether it found room.
    fn offer(&mut self, sample: u32) -> (accepted: bool)
        ensures
            final(self).channels == old(self).channels,
            final(self).queue() == old(self).queue(),
            final(self).offered() == old(self).offered().push(sample),
            final(self).written() == (if accepted {
                old(self).written().push(sample)
            } else {
                old(self).written()
            }),
            old(self).room() > 0 ==> accepted && final(self).room() == old(self).room() - 1,
            !accepted ==> final(self).room() == 0,
    {
        proof {
            queue::lemma_next(self.queue(), self.count());
        }
        self.offered = Ghost(self.offered@.push(sample));
        queue::push_sample(&mut self.tx, sample)
    }

    /// Put the frames of a block into the queue, up to the first that finds no room. The result is
    /// whether frames were lost.
    pub fn feed(&mut self, data: &[u32]) -> (overrun: bool)
        requires
            old(self).width() > 0,
        ensures
            final(self).width() == old(self).width(),
            final(self).queue() == old(self).queue(),
            old(self).room() >= data@.len() ==> !overrun,
            overrun ==> final(self).room() < old(self).width(),
            exists|n: int|
                {
                    &&& 0 <= n <= data@.len() as int / old(self).width()
                    &&& n * old(self).width() <= data@.len()
                    &&& final(self).written() == old(self).written() + #[trigger] data@.subrange(
                        0,
                        n * old(self).width(),
                    )
                    &&& final(self).offered() == old(self).offered() + data@.subrange(
                        0,
                        n * old(self).width(),
                    )
                    &&& overrun == (n < data@.len() as int / old(self).width())
                },
    {
        let channels: usize = self.channels;
        let len: usize = data.len();
        let frames: usize = len / channels;
        proof {
            lemma_frames(data@.len() as int, channels as int);
        }
        let ghost start = self.written();
        let mut frame: usize = 0;
        assert(data@.subrange(0, 0 * channels as int) =~= Seq::<u32>::empty());
        assert(start + data@.subrange(0, 0 * channels as int) =~= start);
        assert(self.offered() + data@.subrange(0, 0 * channels as int) =~= self.offered());
        while frame < frames
            invariant
                channels > 0,
                self.channels == channels,
                frames == data@.len() / channels as nat,
                data@.len() == len,
                frames * channels <= len,
                frame <= frames,
                start == old(self).written(),
                old(self).channels == channels,
                self.queue() == old(self).queue(),
                frame * channels <= data@.len(),
                frame * channels + self.room() >= old(self).room(),
                self.written() == start + data@.subrange(0, frame * channels),
                self.offered() == old(self).offered() + data@.subrange(0, frame * channels),
            decreases frames - frame,
        {
            proof {
                lemma_inside(
                    frame as int,
                    frames as int,
                    channels as int,
                    data@.len() as int,
                    0,
                );
            }
            if queue::free_slots(&mut self.tx) < channels {
                assert(self.written() == start + data@.subrange(0, frame * old(self).width()));
                assert(self.offered() == old(self).offered() + data@.subrange(
                    0,
                    frame * old(self).width(),
                ));
                return true;
            }
            let base: usize = frame * channels;
            let mut c: usize = 0;
            assert(start + data@.subrange(0, base as int) == self.written());
            while c < channels
                invariant
                    c <= channels,
                    channels > 0,
                    self.channels == channels,
                    base == frame * channels,
                    data@.len() == len,
                    base + channels <= len,
                    self.room() >= channels - c,
                    base + c + self.room() >= old(self).room(),
                    self.queue() == old(self).queue(),
                    self.written() == start + data@.subrange(0, base + c),
                    self.offered() == old(self).offered() + data@.subrange(0, base + c),
                decreases channels - c,
            {
                let sample: u32 = data[base + c];
                let accepted: bool = self.offer(sample);
                assert(accepted);
                assert(self.offered() =~= old(self).offered() + data@.subrange(0, base + c + 1));
                assert(start + data@.subrange(0, base + c + 1) =~= (start + data@.subrange(
                    0,
                    base + c,
                )).push(sample));
                c = c + 1;
            }
            proof {
                lemma_inside(
                    frame as int,
                    frames as int,
                    channels as int,
                    data@.len() as int,
                    0,
                );
            }
            frame = frame + 1;
        }
        false
    }

    /// Put the first channel of each frame of a block into the queue. A sample that finds no room is
    /// lost, the next one is tried again. The result is the loudest of them and whether any was
    /// lost.
    pub fn tap(&mut self, data: &[u32], channels: usize) -> (r: (Single, bool))
        requires
            channels > 0,
        ensures
            final(self).width() == old(self).width(),
            final(self).queue() == old(self).queue(),
            old(self).room() >= data@.len() / channels as nat ==> !r.1,
            final(self).offered() == old(self).offered() + first_channel(
                data@,
                channels as int,
                (data@.len() / channels as nat) as nat,
            ),
            ({
                let samples = first_channel(
                    data@,
                    channels as int,
                    (data@.len() / channels as nat) as nat,
                );
                &&& r.0 == loudest_of(samples)
                &&& exists|accepted: Seq<bool>|
                    {
                        &&& accepted.len() == samples.len()
                        &&& final(self).written() == old(self).written() + #[trigger] kept(
                            samples,
                            accepted,
                        )
                        &&& r.1 == accepted.contains(false)
                        &&& queue::as_room_allows(accepted, old(self).room(), final(self).room())
                    }
            }),
    {
        let len: usize = data.len();
        let frames: usize = len / channels;
        proof {
            lemma_frames(data@.len() as int, channels as int);
        }
        let ghost start = self.written();
        let ghost mut accepted: Seq<bool> = Seq::empty();
        let mut peak = Single { bits: 0 };
        let mut overrun: bool = false;
        let mut frame: usize = 0;
        assert(start + kept(first_channel(data@, channels as int, 0), accepted) =~= start);
        assert(self.offered() + first_channel(data@, channels as int, 0) =~= self.offered());
        while frame < frames
            invariant
                channels > 0,
                self.channels == old(self).channels,
                frames == data@.len() / channels as nat,
                data@.len() == len,
                frames * channels <= len,
                frame <= frames,
                accepted.len() == frame,
                peak == loudest_of(first_channel(data@, channels as int, frame as nat)),
                overrun == accepted.contains(false),
                self.queue() == old(self).queue(),
                old(self).room() >= frames ==> !overrun && self.room() == old(self).room() - frame,
                queue::as_room_allows(accepted, old(self).room(), self.room()),
                self.offered() == old(self).offered() + first_channel(
                    data@,
                    channels as int,
                    frame as nat,
                ),
                start == old(self).written(),
                self.written() == start + kept(
                    first_channel(data@, channels as int, frame as nat),
                    accepted,
                ),
            decreases frames - frame,
        {
            proof {
                lemma_inside(
                    frame as int,
                    frames as int,
                    channels as int,
                    data@.len() as int,
                    0,
                );
            }
            let sample: u32 = data[frame * channels];
            let loud: Single = (Single { bits: sample }).abs();
            let ghost before = first_channel(data@, channels as int, frame as nat);
            let ghost now = first_channel(data@, channels as int, (frame + 1) as nat);
            assert(now.drop_last() =~= before);
            assert(now.last() == sample);
            if peak.below(loud) {
                peak = loud;
            }
            let taken: bool = self.offer(sample);
            if !taken {
                overrun = true;
            }
            proof {
                let longer = accepted.push(taken);
                lemma_kept_same(before, accepted, longer);
                assert(longer[frame as int] == taken);
                assert(self.written() =~= start + kept(now, longer));
                assert(self.offered() =~= old(self).offered() + now);
                assert(longer.contains(false) == (accepted.contains(false) || !taken)) by {
                    if accepted.contains(false) {
                        let i = choose|i: int| 0 <= i < accepted.len() && accepted[i] == false;
                        assert(longer[i] == false);
                    }
                    if !taken {
                        assert(longer[frame as int] == false);
                    }
                    if longer.contains(false) {
                        let i = choose|i: int| 0 <= i < longer.len() && longer[i] == false;
                        if i < frame {
                            assert(accepted[i] == false);
                        }
                    }
                }
                accepted = longer;
            }
            frame = frame + 1;
        }
        (peak, overrun)
    }
}

proof fn lemma_kept_same(samples: Seq<u32>, a: Seq<bool>, b: Seq<bool>)
    requires
        a.len() >= samples.len(),
        b.len() >= samples.len(),
        forall|i: int| 0 <= i < samples.len() ==> a[i] == b[i],
    ensures
        kept(samples, a) == kept(samples, b),
    decreases samples.len(),
{
    if samples.len() > 0 {
        lemma_kept_same(samples.drop_last(), a, b);
    }
}

impl FrameReader {
    pub closed spec fn width(self) -> int {
        self.channels as int
    }

    /// Everything that goes through the queue behind this end.
    pub closed spec fn queue(self) -> Map<int, u32> {
        queue::through_reader(self.rx)
    }

    /// How many samples were taken out of the queue.
    pub closed spec fn count(self) -> nat {
        queue::taken_count(self.rx)
    }

    /// Everything that was taken out of the queue, oldest first.
    pub open spec fn taken(self) -> Seq<u32> {
        queue::first_of(self.queue(), self.count())
    }

    /// How many samples are known to be in the queue.
    pub closed spec fn ready(self) -> nat {
        queue::seen_filled(self.rx)
    }

    /// Take up to `frames` whole frames out of the queue, into the front of a buffer. The result is
    /// how many there were: every whole frame that was known to be there, and fewer than asked for
    /// only where a look at the queue has just shown less than a frame.
    pub fn take(&mut self, out: &mut [u32], frames: usize) -> (got: usize)
        requires
            old(self).width() > 0,
            frames * old(self).width() <= old(out)@.len(),
        ensures
            final(self).width() == old(self).width(),
            final(self).queue() == old(self).queue(),
            got <= frames,
            got < frames ==> final(self).ready() < old(self).width(),
            got < frames ==> old(self).ready() < (got + 1) * old(self).width(),
            final(out)@.len() == old(out)@.len(),
            got * old(self).width() <= final(out)@.len(),
            final(self).taken() == old(self).taken() + final(out)@.subrange(
                0,
                got * old(self).width(),
            ),
            forall|i: int|
                got * old(self).width() <= i < final(out)@.len() ==> #[trigger] final(out)@[i]
                    == old(out)@[i],
    {
        let channels: usize = self.channels;
        let ghost start = self.taken();
        let ghost before = out@;
        let len: usize = out.len();
        let mut got: usize = 0;
        let ghost known = self.ready();
        assert(start + out@.subrange(0, 0 * channels as int) =~= start);
        while got < frames
            invariant
                channels > 0,
                self.channels == channels,
                self.queue() == old(self).queue(),
                got <= frames,
                out@.len() == len,
                frames * channels <= len,
                got * channels <= out@.len(),
                out@.len() == before.len(),
                got * channels + self.ready() >= known,
                self.taken() == start + out@.subrange(0, got * channels),
                forall|i: int|
                    got * channels <= i < out@.len() ==> #[trigger] out@[i] == before[i],
            ensures
                self.channels == channels,
                self.queue() == old(self).queue(),
                got <= frames,
                got < frames ==> self.ready() < channels && known < got * channels + channels,
                got * channels <= out@.len(),
                out@.len() == before.len(),
                self.taken() == start + out@.subrange(0, got * channels),
                forall|i: int|
                    got * channels <= i < out@.len() ==> #[trigger] out@[i] == before[i],
            decreases frames - got,
        {
            if queue::filled_slots(&mut self.rx) < channels {
                break;
            }
            proof {
                lemma_inside(got as int, frames as int, channels as int, out@.len() as int, 0);
            }
            let base: usize = got * channels;
            let mut c: usize = 0;
            while c < channels
                invariant
                    c <= channels,
                    channels > 0,
                    self.channels == channels,
                    self.queue() == old(self).queue(),
                    base == got * channels,
                    out@.len() == len,
                    base + channels <= len,
                    out@.len() == before.len(),
                    self.ready() >= channels - c,
                    base + c + self.ready() >= known,
                    self.taken() == start + out@.subrange(0, base + c),
                    forall|i: int| base + c <= i < out@.len() ==> #[trigger] out@[i] == before[i],
                decreases channels - c,
            {
                let ghost earlier = out@;
                proof {
                    queue::lemma_next(self.queue(), self.count());
                }
                match queue::pop_sample(&mut self.rx) {
                    Some(sample) => {
                        out[base + c] = sample;
                        assert(start + out@.subrange(0, base + c + 1) =~= (start
                            + earlier.subrange(0, base + c)).push(sample));
                    },
                    None => {},
                }
                c = c + 1;
            }
            proof {
                lemma_inside(got as int, frames as int, channels as int, out@.len() as int, 0);
            }
            got = got + 1;
        }
        assert((got + 1) * channels == got * channels + channels) by (nonlinear_arith);
        got
    }

    /// The next sample of a queue that carries one channel, if there is one.
    pub fn next(&mut self) -> (r: Option<u32>)
        ensures
            final(self).width() == old(self).width(),
            final(self).queue() == old(self).queue(),
            final(self).taken() == (match r {
                Some(sample) => old(self).taken().push(sample),
                None => old(self).taken(),
            }),
            old(self).ready() > 0 ==> r is Some && final(self).ready() == old(self).ready() - 1,
            r is None ==> final(self).ready() == 0,
    {
        proof {
            queue::lemma_next(self.queue(), self.count());
        }
        queue::pop_sample(&mut self.rx)
    }
}

// ---------------------------------------------------------------------------------------------
// Laws
// ---------------------------------------------------------------------------------------------

/// Whatever a block holds, feeding it keeps the queue in whole frames: what is written afterwards is
/// a number of frames wherever it was one before.
pub proof fn a_queue_holds_whole_frames(before: Seq<u32>, data: Seq<u32>, width: int, n: int)
    requires
        width > 0,
        before.len() as int % width == 0,
        0 <= n * width <= data.len(),
    ensures
        (before + data.subrange(0, n * width)).len() as int % width == 0,
{
    let b = before.len() as int;
    vstd::arithmetic::div_mod::lemma_mod_multiples_vanish(n, b, width);
    assert(width * n + b == b + n * width) by (nonlinear_arith);
}

/// What the input callback writes is what the output callback reads, sample for sample and in that
/// order.
pub proof fn samples_arrive_in_order(writer: FrameWriter, reader: FrameReader)
    requires
        writer.queue() == reader.queue(),
    ensures
        agree(writer.written(), reader.taken()),
        reader.taken().len() <= writer.written().len() ==> reader.taken().is_prefix_of(
            writer.written(),
        ),
{
}

/// A queue that takes everything keeps everything in order, and one that takes nothing keeps
/// nothing; one more sample is added behind where it finds room and lost where it does not.
pub proof fn what_finds_room_is_kept_in_order(
    samples: Seq<u32>,
    accepted: Seq<bool>,
    sample: u32,
    all: bool,
)
    requires
        accepted.len() > samples.len(),
    ensures
        kept(samples.push(sample), accepted) == (if accepted[samples.len() as int] {
            kept(samples, accepted).push(sample)
        } else {
            kept(samples, accepted)
        }),
        (forall|i: int| 0 <= i < samples.len() ==> #[trigger] accepted[i] == all) ==> kept(
            samples,
            accepted,
        ) == (if all {
            samples
        } else {
            Seq::<u32>::empty()
        }),
    decreases samples.len(),
{
    assert(samples.push(sample).drop_last() =~= samples);
    if samples.len() > 0 {
        let fewer = samples.drop_last();
        what_finds_room_is_kept_in_order(fewer, accepted, samples.last(), all);
        assert(fewer.push(samples.last()) =~= samples);
    }
}

/// The loudest of some samples is at least as loud as every one that is a number, and as loud as one
/// of them where it is not silence.
pub proof fn the_loudest_is_as_loud_as_any(samples: Seq<u32>, i: int)
    requires
        0 <= i < samples.len(),
    ensures
        !loudest_of(samples).nan(),
        !(Single { bits: samples[i] }).nan() ==> (Single { bits: samples[i] }).unsigned().le(
            loudest_of(samples),
        ),
    decreases samples.len(),
{
    let fewer = samples.drop_last();
    if fewer.len() > 0 {
        let k = if i < fewer.len() {
            i
        } else {
            0
        };
        the_loudest_is_as_loud_as_any(fewer, k);
    } else {
        assert(loudest_of(fewer).bits == 0);
    }
}

/// Some samples are no louder together than the loudest of them: a sample that is not louder than
/// those before it changes nothing, and a louder one is the loudest.
pub proof fn a_louder_sample_is_the_loudest(samples: Seq<u32>, sample: u32)
    ensures
        ({
            let level = (Single { bits: sample }).unsigned();
            let before = loudest_of(samples);
            loudest_of(samples.push(sample)) == (if before.lt(level) {
                level
            } else {
                before
            })
        }),
        loudest_of(Seq::empty()).bits == 0,
{
    assert(samples.push(sample).drop_last() =~= samples);
}

/// The first channel of a block is every first sample of a frame.
pub proof fn the_first_channel_is_taken(data: Seq<u32>, channels: int, n: nat, i: int)
    requires
        0 <= i < n,
    ensures
        first_channel(data, channels, n).len() == n,
        first_channel(data, channels, n)[i] == data[i * channels],
{
}

} // verus!
