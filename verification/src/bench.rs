//! How much of the audio callback the effects cost.
//!
//! The budget is fixed by the buffer size the engine targets: 128 frames at 48 000 Hz are 2.667 ms
//! per callback. Everything the callback does has to fit inside that.
use vstd::prelude::*;
use vstd::string::*;
use crate::text::{decimal, push_decimal, same_text};

verus! {

/// The buffer size the budget is stated for.
pub const BUDGET_FRAMES: usize = 128;

/// The bits of 0.05 and of 60 in double precision. Numbers without a sign are ordered as their bits.
pub const LEAST_SECONDS: u64 = 0x3FA9_9999_9999_999A;

pub const MOST_SECONDS: u64 = 0x404E_0000_0000_0000;

/// One measured item: how long so many frames took. A frame is two samples everywhere in the chain.
#[derive(Debug)]
pub struct Row {
    pub name: String,
    pub nanos: u64,
    pub frames: u64,
}

/// An exact share in percent: `of` divided by `per`.
#[derive(Clone, Copy, Debug, PartialEq, Eq, Structural)]
pub struct Percent {
    pub of: u128,
    pub per: u128,
}

impl Row {
    /// The share of one callback budget this costs for a single track: the time of a frame against
    /// the time a frame lasts.
    pub fn percent_of_budget(&self, sample_rate: u32) -> (r: Percent)
        requires
            self.frames > 0,
        ensures
            r.of == self.nanos * sample_rate,
            r.per == self.frames * 10_000_000,
            r.per > 0,
    {
        assert(0 <= self.nanos * sample_rate <= u64::MAX * u32::MAX) by (nonlinear_arith)
            requires
                0 <= self.nanos <= u64::MAX,
                0 <= sample_rate <= u32::MAX,
        ;
        Percent {
            of: self.nanos as u128 * sample_rate as u128,
            per: self.frames as u128 * 10_000_000,
        }
    }
}

#[derive(Debug)]
pub struct Report {
    pub sample_rate: u32,
    pub samples: usize,
    pub rows: Vec<Row>,
}

impl Report {
    /// The first row of a name.
    pub fn get(&self, name: &str) -> (r: Option<&Row>)
        ensures
            match r {
                Some(row) => exists|i: int|
                    {
                        &&& 0 <= i < self.rows@.len()
                        &&& #[trigger] self.rows@[i] == *row
                        &&& row.name@ == name@
                        &&& forall|j: int| 0 <= j < i ==> (#[trigger] self.rows@[j]).name@ != name@
                    },
                None => forall|j: int|
                    0 <= j < self.rows@.len() ==> (#[trigger] self.rows@[j]).name@ != name@,
            },
    {
        let mut i: usize = 0;
        while i < self.rows.len()
            invariant
                i <= self.rows.len(),
                forall|j: int| 0 <= j < i ==> (#[trigger] self.rows@[j]).name@ != name@,
            decreases self.rows.len() - i,
        {
            if same_text(self.rows[i].name.as_str(), name) {
                return Some(&self.rows[i]);
            }
            i = i + 1;
        }
        None
    }
}

/// What is wrong with what the measurement was asked for: a sample rate nothing runs at, then a
/// stretch of audio that is too short or too long.
pub open spec fn bench_error(sample_rate: u32, seconds: u64) -> Option<Seq<char>> {
    if sample_rate < 8_000 || sample_rate > 192_000 {
        Some(
            "Samplerate "@ + decimal(sample_rate as nat) + " liegt ausserhalb von 8000..192000."@,
        )
    } else if seconds < LEAST_SECONDS || seconds > MOST_SECONDS {
        Some("--seconds muss zwischen 0.05 und 60 liegen."@)
    } else {
        None
    }
}

/// Check what the measurement was asked for. `seconds` are the bits of a double.
pub fn check_bench(sample_rate: u32, seconds: u64) -> (r: Result<(), String>)
    ensures
        match bench_error(sample_rate, seconds) {
            Some(text) => r matches Err(e) && e@ == text,
            None => r is Ok,
        },
{
    if sample_rate < 8_000 || sample_rate > 192_000 {
        let mut e = String::new();
        e.append("Samplerate ");
        push_decimal(&mut e, sample_rate as u64);
        e.append(" liegt ausserhalb von 8000..192000.");
        assert(e@ =~= "Samplerate "@ + decimal(sample_rate as nat)
            + " liegt ausserhalb von 8000..192000."@);
        return Err(e);
    }
    if seconds < LEAST_SECONDS || seconds > MOST_SECONDS {
        return Err("--seconds muss zwischen 0.05 und 60 liegen.".to_owned());
    }
    Ok(())
}

/// What is cheap stays cheap: a row that took a quarter of the time of another over the same frames
/// costs at most a quarter of its share.
pub proof fn a_quarter_of_the_time_is_a_quarter_of_the_share(
    cheap: Row,
    dear: Row,
    sample_rate: u32,
)
    requires
        cheap.frames == dear.frames,
        cheap.nanos * 4 <= dear.nanos,
    ensures
        (cheap.nanos * sample_rate) * 4 * (dear.frames * 10_000_000) <= (dear.nanos * sample_rate) * (
        cheap.frames * 10_000_000),
{
    let a = cheap.nanos * sample_rate;
    let b = dear.nanos * sample_rate;
    let d = cheap.frames * 10_000_000;
    assert(a * 4 <= b) by (nonlinear_arith)
        requires
            a == cheap.nanos * sample_rate,
            b == dear.nanos * sample_rate,
            cheap.nanos * 4 <= dear.nanos,
            sample_rate >= 0,
    ;
    assert(a * 4 * d <= b * d) by (nonlinear_arith)
        requires
            a * 4 <= b,
            d >= 0,
    ;
}

/// A measurement is accepted exactly from 8 kHz to 192 kHz and from a twentieth of a second to a
/// minute, the ends included.
pub proof fn a_measurement_is_accepted_within_its_limits(sample_rate: u32, seconds: u64)
    ensures
        bench_error(sample_rate, seconds) is None <==> 8_000 <= sample_rate <= 192_000
            && 0x3fa9_9999_9999_999a <= seconds <= 0x404e_0000_0000_0000,
{
}

} // verus!
