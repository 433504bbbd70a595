//! The stock of prepared layer buffers.
//!
//! A take must never wait for an allocation, and the audio thread must never allocate. So the
//! control thread keeps a few zeroed buffers inside the engine and makes up for every one that
//! became a layer. How many are there is known from the newest snapshot: the ones the engine has
//! in stock, and the ones on their way to it.
use vstd::prelude::*;
use crate::command::{drained, fetched_back, BufferChannel, Status};

verus! {

pub struct LayerPool {
    channel: BufferChannel,
    frames: usize,
    slots: usize,
    handed: u64,
}

pub open spec fn zeros(frames: usize) -> Seq<u32> {
    Seq::new(frames as nat, |i: int| 0u32)
}

/// A list followed by `n` zeroed buffers.
pub open spec fn restocked(list: Seq<Seq<u32>>, frames: usize, n: nat) -> Seq<Seq<u32>> {
    list + Seq::new(n, |i: int| zeros(frames))
}

/// How many buffers the engine has in stock or is about to find.
pub open spec fn stock(handed: u64, status: Option<Status>) -> int {
    let (taken, spares) = match status {
        Some(status) => (status.buffers_taken, status.spares),
        None => (0u64, 0u32),
    };
    spares + (if handed > taken {
        handed - taken
    } else {
        0
    })
}

proof fn lemma_drained_twice(a: BufferChannel, b: BufferChannel, c: BufferChannel)
    requires
        drained(a, b),
        drained(b, c),
    ensures
        drained(a, c),
{
    assert(a.came_back().is_prefix_of(c.came_back()));
}

impl LayerPool {
    /// Length of a layer buffer.
    pub closed spec fn length(self) -> usize {
        self.frames
    }

    /// How many buffers are kept ready.
    pub closed spec fn size(self) -> usize {
        self.slots
    }

    /// How many buffers were handed to the engine so far.
    pub closed spec fn count(self) -> u64 {
        self.handed
    }

    /// The ends of the two queues to the engine.
    pub closed spec fn ends(self) -> BufferChannel {
        self.channel
    }

    /// The buffers that were handed over, oldest first.
    pub open spec fn installed(self) -> Seq<Seq<u32>> {
        self.ends().installed()
    }

    /// How many buffers are missing.
    pub open spec fn missing(self, status: Option<Status>) -> nat {
        if self.size() > stock(self.count(), status) {
            (self.size() - stock(self.count(), status)) as nat
        } else {
            0
        }
    }

    pub fn new(channel: BufferChannel, frames: usize, slots: usize) -> (r: Self)
        ensures
            r.length() == frames,
            r.size() == slots,
            r.count() == 0,
            r.ends() == channel,
    {
        LayerPool { channel, frames, slots, handed: 0 }
    }

    /// Fill the stock up, as far as the queue to the engine has room. The answer is whether nothing
    /// is missing any more. This is the only place a layer buffer is allocated and zeroed.
    pub fn service(&mut self, status: Option<&Status>) -> (complete: bool)
        requires
            old(self).count() + old(self).size() <= u64::MAX,
        ensures
            final(self).length() == old(self).length(),
            final(self).size() == old(self).size(),
            final(self).ends().queue() == old(self).ends().queue(),
            drained(old(self).ends(), final(self).ends()),
            !complete ==> final(self).ends().room() == 0,
            ({
                let seen = match status {
                    Some(status) => Some(*status),
                    None => None,
                };
                let made = final(self).count() - old(self).count();
                &&& 0 <= made <= old(self).missing(seen)
                &&& complete == (made == old(self).missing(seen))
                &&& old(self).ends().room() >= old(self).missing(seen) ==> complete
                &&& final(self).installed() == restocked(
                    old(self).installed(),
                    old(self).length(),
                    made as nat,
                )
            }),
    {
        let ghost before = *self;
        let ghost seen = match status {
            Some(status) => Some(*status),
            None => None,
        };
        self.channel.drain_retired();
        let (taken, spares): (u64, u32) = match status {
            Some(status) => (status.buffers_taken, status.spares),
            None => (0, 0),
        };
        let underway: u64 = if self.handed > taken {
            self.handed - taken
        } else {
            0
        };
        let present: u128 = underway as u128 + spares as u128;
        let wanted: usize = if self.slots as u128 > present {
            (self.slots as u128 - present) as usize
        } else {
            0
        };
        assert(wanted == before.missing(seen));
        let mut made: usize = 0;
        assert(restocked(before.installed(), before.length(), 0) =~= before.installed());
        while made < wanted
            invariant
                before == *old(self),
                seen == (match status {
                    Some(status) => Some(*status),
                    None => None,
                }),
                made <= wanted <= self.slots,
                wanted == before.missing(seen),
                before.handed + before.slots <= u64::MAX,
                self.frames == before.frames,
                self.slots == before.slots,
                self.handed == before.handed + made,
                self.channel.queue() == before.channel.queue(),
                drained(before.channel, self.channel),
                before.channel.room() >= wanted ==> self.channel.room() == before.channel.room()
                    - made,
                self.channel.installed() == restocked(
                    before.installed(),
                    before.frames,
                    made as nat,
                ),
            decreases wanted - made,
        {
            let buffer: Vec<u32> = vec![0u32; self.frames];
            assert(buffer@ =~= zeros(self.frames));
            let ghost earlier = self.channel;
            let accepted: bool = self.channel.install(buffer).is_ok();
            proof {
                lemma_drained_twice(before.channel, earlier, self.channel);
            }
            if !accepted {
                return false;
            }
            proof {
                let old_list = restocked(before.installed(), before.frames, made as nat);
                assert(old_list.push(zeros(before.frames)) =~= restocked(
                    before.installed(),
                    before.frames,
                    (made + 1) as nat,
                ));
            }
            self.handed = self.handed + 1;
            made = made + 1;
        }
        true
    }

    /// Another layer length, from the next buffer on. Shorter ones the engine sends back by itself.
    pub fn set_layer_frames(&mut self, frames: usize)
        ensures
            final(self).length() == frames,
            final(self).size() == old(self).size(),
            final(self).count() == old(self).count(),
            final(self).ends() == old(self).ends(),
    {
        self.frames = frames;
    }

    /// One buffer that came back, with what was recorded into it.
    pub fn take_retired(&mut self) -> (r: Option<Vec<u32>>)
        ensures
            final(self).length() == old(self).length(),
            final(self).size() == old(self).size(),
            final(self).count() == old(self).count(),
            fetched_back(old(self).ends(), final(self).ends(), r),
    {
        self.channel.take_retired()
    }

    /// Drop everything that came back.
    pub fn drain(&mut self)
        ensures
            final(self).length() == old(self).length(),
            final(self).size() == old(self).size(),
            final(self).count() == old(self).count(),
            final(self).installed() == old(self).installed(),
            final(self).ends().queue() == old(self).ends().queue(),
            final(self).ends().room() == old(self).ends().room(),
            drained(old(self).ends(), final(self).ends()),
    {
        self.channel.drain_retired();
    }
}

// ---------------------------------------------------------------------------------------------
// Laws
// ---------------------------------------------------------------------------------------------

/// After a complete service the engine has, or is about to find, as many buffers as are to be kept
/// ready; a stock that was full before is left alone.
pub proof fn a_serviced_stock_is_full(before: LayerPool, after: LayerPool, status: Option<Status>)
    requires
        status matches Some(s) ==> s.buffers_taken <= before.count(),
        after.size() == before.size(),
        after.count() == before.count() + before.missing(status),
    ensures
        stock(after.count(), status) >= after.size(),
        stock(before.count(), status) >= before.size() ==> after.count() == before.count(),
        after.missing(status) == 0,
{
}

} // verus!
