//! The shape of the reverb: eight parallel comb filters into four allpass filters in series, per
//! channel.
//!
//! The delays of the combs share no common factor. That is the whole trick: eight decaying repeats
//! whose periods share no common factor sum into something that has no audible period of its own,
//! which is what a room sounds like. They are scaled with the sample rate, so the character does not
//! change with it.
//!
//! The right-hand bank is the same set of filters with every delay lengthened a little. The two
//! channels then have different periods, so their echo patterns are uncorrelated, and that is what
//! makes the reverb stereo.
use vstd::prelude::*;
use vstd::arithmetic::div_mod::{
    lemma_div_is_ordered,
    lemma_fundamental_div_mod_converse,
    lemma_small_mod,
};

verus! {

pub const COMBS: usize = 8;

pub const ALLPASSES: usize = 4;

/// The sample rate the delays are tuned for.
pub const TUNING_RATE: u64 = 44_100;

/// How much longer every delay of the right-hand bank is, in samples at the tuning rate.
pub const STEREO_SPREAD: u64 = 23;

/// The delay of a comb, in samples at the tuning rate.
pub open spec fn comb_tuning(i: int) -> int {
    seq![1116int, 1188, 1277, 1356, 1422, 1491, 1557, 1617][i]
}

/// The delay of an allpass, in samples at the tuning rate.
pub open spec fn allpass_tuning(i: int) -> int {
    seq![556int, 441, 341, 225][i]
}

/// A delay at another sample rate: to the nearest sample, and at least one.
pub open spec fn line_length(tuned: int, rate: u32) -> int {
    let scaled = (2 * tuned * rate + TUNING_RATE) / (2 * TUNING_RATE as int);
    if scaled < 1 {
        1
    } else {
        scaled
    }
}

fn length_of(tuned: u64, rate: u32) -> (r: usize)
    requires
        tuned <= 2000,
    ensures
        r == line_length(tuned as int, rate),
        1 <= r <= 0x0fff_ffff,
{
    assert(0 <= 2 * tuned * rate <= 4000 * u32::MAX) by (nonlinear_arith)
        requires
            0 <= tuned <= 2000,
            0 <= rate <= u32::MAX,
    ;
    let doubled: u64 = 2 * tuned * rate as u64 + TUNING_RATE;
    let scaled: u64 = doubled / (2 * TUNING_RATE);
    assert(doubled <= 4000 * u32::MAX + 44_100);
    assert(scaled == doubled / 88_200);
    if scaled < 1 {
        1
    } else {
        scaled as usize
    }
}

/// The lengths of the delay lines of one channel.
#[derive(Debug)]
pub struct BankSizes {
    pub combs: Vec<usize>,
    pub allpasses: Vec<usize>,
}

impl BankSizes {
    /// Whether these are the lines of a bank at a sample rate, every one of them lengthened by
    /// `spread`.
    pub open spec fn tuned(self, rate: u32, spread: int) -> bool {
        &&& self.combs@.len() == COMBS
        &&& self.allpasses@.len() == ALLPASSES
        &&& forall|i: int|
            0 <= i < COMBS ==> #[trigger] self.combs@[i] == line_length(
                comb_tuning(i) + spread,
                rate,
            )
        &&& forall|i: int|
            0 <= i < ALLPASSES ==> #[trigger] self.allpasses@[i] == line_length(
                allpass_tuning(i) + spread,
                rate,
            )
    }

    /// The lines a bank has, none of them without end.
    pub open spec fn sized(self) -> bool {
        &&& self.combs@.len() == COMBS
        &&& self.allpasses@.len() == ALLPASSES
        &&& forall|i: int| 0 <= i < COMBS ==> 1 <= #[trigger] self.combs@[i] <= 0x0fff_ffff
        &&& forall|i: int| 0 <= i < ALLPASSES ==> 1 <= #[trigger] self.allpasses@[i] <= 0x0fff_ffff
    }

    /// The lines of one bank.
    pub fn new(rate: u32, spread: u64) -> (r: Self)
        requires
            spread <= STEREO_SPREAD,
        ensures
            r.tuned(rate, spread as int),
            r.sized(),
    {
        let mut combs: Vec<usize> = Vec::new();
        combs.push(length_of(1116 + spread, rate));
        combs.push(length_of(1188 + spread, rate));
        combs.push(length_of(1277 + spread, rate));
        combs.push(length_of(1356 + spread, rate));
        combs.push(length_of(1422 + spread, rate));
        combs.push(length_of(1491 + spread, rate));
        combs.push(length_of(1557 + spread, rate));
        combs.push(length_of(1617 + spread, rate));
        let mut allpasses: Vec<usize> = Vec::new();
        allpasses.push(length_of(556 + spread, rate));
        allpasses.push(length_of(441 + spread, rate));
        allpasses.push(length_of(341 + spread, rate));
        allpasses.push(length_of(225 + spread, rate));
        BankSizes { combs, allpasses }
    }

    /// The longest comb, which bounds the tail.
    pub fn longest_comb(&self) -> (r: usize)
        requires
            self.combs@.len() > 0,
        ensures
            self.combs@.contains(r),
            forall|i: int| 0 <= i < self.combs@.len() ==> #[trigger] self.combs@[i] <= r,
    {
        let mut r: usize = self.combs[0];
        let mut i: usize = 1;
        while i < self.combs.len()
            invariant
                1 <= i <= self.combs.len(),
                self.combs@.contains(r),
                forall|j: int| 0 <= j < i ==> #[trigger] self.combs@[j] <= r,
            decreases self.combs.len() - i,
        {
            if self.combs[i] > r {
                r = self.combs[i];
            }
            i = i + 1;
        }
        r
    }

    /// How many samples the lines of this bank hold.
    pub fn buffered_samples(&self) -> (r: u64)
        requires
            self.sized(),
        ensures
            r == samples_in(self.combs@) + samples_in(self.allpasses@),
    {
        total(&self.combs) + total(&self.allpasses)
    }
}

/// What some lines hold together.
pub open spec fn samples_in(lines: Seq<usize>) -> nat
    decreases lines.len(),
{
    if lines.len() == 0 {
        0
    } else {
        samples_in(lines.drop_last()) + lines.last() as nat
    }
}

fn total(lines: &Vec<usize>) -> (r: u64)
    requires
        lines@.len() <= COMBS,
        forall|i: int| 0 <= i < lines@.len() ==> #[trigger] lines@[i] <= 0x0fff_ffff,
    ensures
        r == samples_in(lines@),
        r <= COMBS * 0x0fff_ffff,
{
    let mut r: u64 = 0;
    let mut i: usize = 0;
    assert(lines@.take(0) =~= Seq::<usize>::empty());
    while i < lines.len()
        invariant
            i <= lines.len() <= COMBS,
            forall|j: int| 0 <= j < lines@.len() ==> #[trigger] lines@[j] <= 0x0fff_ffff,
            r == samples_in(lines@.take(i as int)),
            r <= i * 0x0fff_ffff,
        decreases lines.len() - i,
    {
        assert(lines@.take(i + 1).drop_last() =~= lines@.take(i as int));
        r = r + lines[i] as u64;
        i = i + 1;
    }
    assert(lines@.take(i as int) =~= lines@);
    r
}

// ---------------------------------------------------------------------------------------------
// Walking round a line
// ---------------------------------------------------------------------------------------------

/// A place in a delay line that is read and then written, one sample after the other, round and
/// round.
#[derive(Clone, Copy, Debug, PartialEq, Eq, Structural)]
pub struct Ring {
    pub len: usize,
    pub at: usize,
}

impl Ring {
    pub open spec fn wf(self) -> bool {
        self.at < self.len
    }

    /// The beginning of a line. A line holds at least one sample.
    pub fn new(len: usize) -> (r: Self)
        ensures
            r.wf(),
            r == (Ring {
                len: if len < 1 {
                    1
                } else {
                    len
                },
                at: 0,
            }),
    {
        Ring {
            len: if len < 1 {
                1
            } else {
                len
            },
            at: 0,
        }
    }

    /// The place of this sample. The next one gets the next place, and the first one follows the last.
    pub fn step(&mut self) -> (r: usize)
        requires
            old(self).wf(),
        ensures
            final(self).wf(),
            r == old(self).at,
            *final(self) == old(self).stepped(),
    {
        let here: usize = self.at;
        self.at = here + 1;
        if self.at >= self.len {
            self.at = 0;
        }
        here
    }

    pub open spec fn stepped(self) -> Ring {
        Ring {
            at: if self.at + 1 >= self.len {
                0
            } else {
                (self.at + 1) as usize
            },
            ..self
        }
    }

    /// The ring after some samples.
    pub open spec fn after(self, samples: nat) -> Ring
        decreases samples,
    {
        if samples == 0 {
            self
        } else {
            self.after((samples - 1) as nat).stepped()
        }
    }
}

// ---------------------------------------------------------------------------------------------
// Laws
// ---------------------------------------------------------------------------------------------

/// A line delays by exactly its length: a place comes round again after that many samples.
pub proof fn a_place_comes_round_after_the_length(ring: Ring, samples: nat)
    requires
        ring.wf(),
    ensures
        ring.after(samples).wf(),
        ring.after(samples).len == ring.len,
        ring.after(samples).at == (ring.at + samples) % ring.len as int,
    decreases samples,
{
    if samples == 0 {
        lemma_small_mod(ring.at as nat, ring.len as nat);
    } else {
        let before = ring.after((samples - 1) as nat);
        a_place_comes_round_after_the_length(ring, (samples - 1) as nat);
        let len = ring.len as int;
        let x = ring.at + samples - 1;
        let q = x / len;
        let m = x % len;
        vstd::arithmetic::div_mod::lemma_fundamental_div_mod(x, len);
        if m + 1 >= len {
            assert(x + 1 == len * (q + 1) + 0) by (nonlinear_arith)
                requires
                    x == len * q + m,
                    m + 1 == len,
            ;
            assert(len * (q + 1) == (q + 1) * len) by (nonlinear_arith);
            lemma_fundamental_div_mod_converse(x + 1, len, q + 1, 0);
        } else {
            assert(len * q == q * len) by (nonlinear_arith);
            lemma_fundamental_div_mod_converse(x + 1, len, q, m + 1);
        }
    }
}

/// The two channels carry different tails: at any sample rate in use, every line of the right-hand
/// bank is longer than its counterpart on the left.
pub proof fn the_right_hand_bank_is_longer(left: BankSizes, right: BankSizes, rate: u32)
    requires
        left.tuned(rate, 0),
        right.tuned(rate, STEREO_SPREAD as int),
        rate >= 2000,
    ensures
        forall|i: int| 0 <= i < COMBS ==> left.combs@[i] < #[trigger] right.combs@[i],
        forall|i: int| 0 <= i < ALLPASSES ==> left.allpasses@[i] < #[trigger] right.allpasses@[i],
{
    assert forall|i: int| 0 <= i < COMBS implies left.combs@[i] < #[trigger] right.combs@[i] by {
        lemma_spread_lengthens(comb_tuning(i), rate);
        assert(left.combs@[i] == line_length(comb_tuning(i) + 0, rate));
    }
    assert forall|i: int| 0 <= i < ALLPASSES implies left.allpasses@[i]
        < #[trigger] right.allpasses@[i] by {
        lemma_spread_lengthens(allpass_tuning(i), rate);
        assert(left.allpasses@[i] == line_length(allpass_tuning(i) + 0, rate));
    }
}

proof fn lemma_spread_lengthens(tuned: int, rate: u32)
    requires
        tuned >= 100,
        rate >= 2000,
    ensures
        line_length(tuned, rate) < line_length(tuned + STEREO_SPREAD, rate),
{
    let d = 2 * TUNING_RATE as int;
    let a = 2 * tuned * rate + TUNING_RATE;
    let b = 2 * (tuned + STEREO_SPREAD) * rate + TUNING_RATE;
    assert(b >= a + d) by (nonlinear_arith)
        requires
            d == 88200,
            a == 2 * tuned * rate + 44100,
            b == 2 * (tuned + 23) * rate + 44100,
            rate >= 2000,
    ;
    assert(a >= d) by (nonlinear_arith)
        requires
            d == 88200,
            a == 2 * tuned * rate + 44100,
            tuned >= 100,
            rate >= 2000,
    ;
    lemma_div_is_ordered(a + d, b, d);
    assert((a + d) / d == a / d + 1);
}

/// A delay keeps its time at every sample rate, to within half a sample, and is never shorter than
/// one; at the rate it is tuned for it is exact.
pub proof fn a_delay_keeps_its_time(tuned: int, rate: u32)
    requires
        tuned >= 1,
    ensures
        line_length(tuned, rate) >= 1,
        line_length(tuned, rate) > 1 ==> -44_100 < 2 * (line_length(tuned, rate) * 44_100 - tuned
            * rate) <= 44_100,
        line_length(tuned, 44_100) == tuned,
{
    let x = 2 * tuned * rate + 44_100;
    vstd::arithmetic::div_mod::lemma_fundamental_div_mod(x, 88_200);
    assert(2 * tuned * rate == 2 * (tuned * rate)) by (nonlinear_arith);
}

/// Lines hold together what each of them holds.
pub proof fn lines_add_up(lines: Seq<usize>, line: usize)
    ensures
        samples_in(lines.push(line)) == samples_in(lines) + line,
        samples_in(Seq::empty()) == 0,
{
    assert(lines.push(line).drop_last() =~= lines);
}

} // verus!
