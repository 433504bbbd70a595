//! Musical time on the sample axis: beats and bars as absolute sample positions.
//!
//! A beat is a fraction of a sample count - at 137 BPM and 48 kHz an eighth is 10 510.9 samples -
//! so the grid is never advanced step by step. Beat `n` starts at `n` times the exact beat length,
//! rounded once, and that product is formed in integer arithmetic without any loss. Whatever the
//! tempo, the position of the ten-thousandth beat is as exact as that of the first.
//!
//! A tempo comes in as a floating-point number. [`Bpm`] holds its bit pattern; inside the admitted
//! range every such number is an integer over a power of two, which is what the arithmetic uses.
use vstd::prelude::*;
use vstd::string::*;
use crate::text::{decimal, push_decimal};

verus! {

/// `2^52`: the fraction steps of a double-precision number between one and two.
pub const FRACTION: u64 = 4503599627370496;

/// Bit pattern of the double-precision number 1.
pub const BPM_LOWEST: u64 = 4607182418800017408;

/// Bit pattern of the double-precision number 400.
pub const BPM_HIGHEST: u64 = 4645744490609377280;

/// Beat numbers stay below this, so that every product fits into 128 bits.
pub const MAX_BEAT: u64 = 1152921504606846976;

/// A tempo in quarter notes per minute, as the bit pattern of a double-precision number.
#[derive(Clone, Copy, Debug, PartialEq, Eq, Structural)]
pub struct Bpm {
    pub bits: u64,
}

/// `2^e` for the binary exponents a valid tempo has.
pub open spec fn power_of_two(e: int) -> int {
    if e == 0 {
        1
    } else if e == 1 {
        2
    } else if e == 2 {
        4
    } else if e == 3 {
        8
    } else if e == 4 {
        16
    } else if e == 5 {
        32
    } else if e == 6 {
        64
    } else if e == 7 {
        128
    } else {
        256
    }
}

impl Bpm {
    /// Whether this is a number from 1 to 400. Bit patterns of positive numbers are ordered as the
    /// numbers are; those of negative numbers and of what is no number lie above all of them.
    pub open spec fn valid(self) -> bool {
        BPM_LOWEST <= self.bits <= BPM_HIGHEST
    }

    /// The tempo times `2^52`, which is an integer for every valid tempo.
    pub open spec fn scaled(self) -> int {
        (FRACTION + self.bits % FRACTION) * power_of_two(self.bits / FRACTION - 1023)
    }

    pub fn compute_scaled(self) -> (r: u128)
        requires
            self.valid(),
        ensures
            r == self.scaled(),
            FRACTION <= r <= 400 * FRACTION,
    {
        let exponent: u64 = self.bits / FRACTION - 1023;
        let factor: u128 = if exponent == 0 {
            1
        } else if exponent == 1 {
            2
        } else if exponent == 2 {
            4
        } else if exponent == 3 {
            8
        } else if exponent == 4 {
            16
        } else if exponent == 5 {
            32
        } else if exponent == 6 {
            64
        } else if exponent == 7 {
            128
        } else {
            256
        };
        let fraction: u128 = (FRACTION + self.bits % FRACTION) as u128;
        proof {
            lemma_scaled_range(self);
        }
        fraction * factor
    }
}

proof fn lemma_scaled_range(bpm: Bpm)
    requires
        bpm.valid(),
    ensures
        FRACTION <= bpm.scaled() <= 400 * FRACTION,
        0 <= bpm.bits / FRACTION - 1023 <= 8,
{
    let e: int = bpm.bits / FRACTION - 1023;
    let m: int = FRACTION + bpm.bits % FRACTION;
    assert(0 <= e <= 8);
    assert(FRACTION <= m < 2 * FRACTION);
    if e == 0 {
        assert(m * 1 == m);
    } else if e == 1 {
        assert(m * 2 <= 4 * FRACTION);
    } else if e == 2 {
        assert(m * 4 <= 8 * FRACTION);
    } else if e == 3 {
        assert(m * 8 <= 16 * FRACTION);
    } else if e == 4 {
        assert(m * 16 <= 32 * FRACTION);
    } else if e == 5 {
        assert(m * 32 <= 64 * FRACTION);
    } else if e == 6 {
        assert(m * 64 <= 128 * FRACTION);
    } else if e == 7 {
        assert(m * 128 <= 256 * FRACTION);
    } else {
        assert(e == 8);
        assert(bpm.bits == (e + 1023) * FRACTION + bpm.bits % FRACTION);
        assert(bpm.bits % FRACTION <= BPM_HIGHEST - 1031 * FRACTION);
        assert(m * 256 <= 400 * FRACTION);
    }
}

/// How beats are counted: beats per bar, and which note value one beat is.
#[derive(Clone, Copy, Debug, PartialEq, Eq, Structural)]
pub struct TimeSignature {
    pub beats_per_bar: u32,
    /// 4 = quarter, 8 = eighth.
    pub beat_unit: u32,
}

impl TimeSignature {
    pub fn new(beats_per_bar: u32, beat_unit: u32) -> (r: Self)
        ensures
            r == (TimeSignature { beats_per_bar, beat_unit }),
    {
        TimeSignature { beats_per_bar, beat_unit }
    }

    pub open spec fn unit_is_a_note_value(self) -> bool {
        self.beat_unit == 1 || self.beat_unit == 2 || self.beat_unit == 4 || self.beat_unit == 8
            || self.beat_unit == 16 || self.beat_unit == 32
    }

    pub open spec fn valid(self) -> bool {
        self.beats_per_bar > 0 && self.unit_is_a_note_value()
    }
}

/// What is wrong with a tempo or a time signature.
#[derive(Clone, Copy, Debug, PartialEq, Eq, Structural)]
pub enum TempoError {
    /// The tempo is no number from 1 to 400.
    Bpm,
    /// A bar without beats.
    BeatsPerBar,
    /// The beat unit is no note value.
    BeatUnit(u32),
    /// The sample rate is so low that a beat would be shorter than one sample.
    Rate(u32),
}

/// The German sentence for an error, with the tempo written as `shown`.
pub open spec fn tempo_message(error: TempoError, shown: Seq<char>) -> Seq<char> {
    match error {
        TempoError::Bpm => "BPM "@ + shown + " liegt ausserhalb von 1..400."@,
        TempoError::BeatsPerBar => "--beats-per-bar muss mindestens 1 sein."@,
        TempoError::BeatUnit(unit) => "--beat-unit "@ + decimal(unit as nat)
            + " ist keine Notenlaenge (erlaubt: 1, 2, 4, 8, 16, 32)."@,
        TempoError::Rate(rate) => "Die Samplerate "@ + decimal(rate as nat)
            + " ist fuer dieses Tempo zu klein."@,
    }
}

impl TempoError {
    /// The German sentence for this error. `shown` is the tempo as the caller writes it.
    pub fn message(&self, shown: &str) -> (r: String)
        ensures
            r@ == tempo_message(*self, shown@),
    {
        let mut out = String::new();
        match *self {
            TempoError::Bpm => {
                out.append("BPM ");
                out.append(shown);
                out.append(" liegt ausserhalb von 1..400.");
            },
            TempoError::BeatsPerBar => {
                out.append("--beats-per-bar muss mindestens 1 sein.");
            },
            TempoError::BeatUnit(unit) => {
                out.append("--beat-unit ");
                push_decimal(&mut out, unit as u64);
                out.append(" ist keine Notenlaenge (erlaubt: 1, 2, 4, 8, 16, 32).");
            },
            TempoError::Rate(rate) => {
                out.append("Die Samplerate ");
                push_decimal(&mut out, rate as u64);
                out.append(" ist fuer dieses Tempo zu klein.");
            },
        }
        out
    }
}

/// Tempo and metre on a sample axis.
#[derive(Clone, Copy, Debug, PartialEq, Eq, Structural)]
pub struct Timeline {
    sample_rate: u32,
    bpm: Bpm,
    signature: TimeSignature,
}

/// A position in musical terms: zero-based bar, zero-based beat inside it, samples inside the beat.
#[derive(Clone, Copy, Debug, PartialEq, Eq, Structural)]
pub struct Located {
    pub bar: u64,
    pub beat: u32,
    pub offset: u64,
}

/// The numerator of the beat length in samples: a quarter note is `rate * 60 / bpm` samples and a
/// beat is four quarters over the beat unit, all of it times `2^52`.
pub open spec fn beat_numerator(sample_rate: int) -> int {
    sample_rate * 240 * FRACTION
}

/// The denominator of the beat length in samples.
pub open spec fn beat_denominator(bpm: Bpm, signature: TimeSignature) -> int {
    bpm.scaled() * signature.beat_unit
}

/// `n * a / b`, rounded to the nearest integer, upwards in the middle.
pub open spec fn rounded(n: int, a: int, b: int) -> int {
    (2 * (n * a) + b) / (2 * b)
}

/// The first thing that keeps a tempo from being usable, if anything does.
pub open spec fn tempo_error(sample_rate: u32, bpm: Bpm, signature: TimeSignature) -> Option<
    TempoError,
> {
    if !bpm.valid() {
        Some(TempoError::Bpm)
    } else if signature.beats_per_bar == 0 {
        Some(TempoError::BeatsPerBar)
    } else if !signature.unit_is_a_note_value() {
        Some(TempoError::BeatUnit(signature.beat_unit))
    } else if beat_numerator(sample_rate as int) < beat_denominator(bpm, signature) {
        Some(TempoError::Rate(sample_rate))
    } else {
        None
    }
}

proof fn lemma_denominator_range(bpm: Bpm, signature: TimeSignature)
    requires
        bpm.valid(),
        signature.unit_is_a_note_value(),
    ensures
        FRACTION <= beat_denominator(bpm, signature) <= 12800 * FRACTION,
{
    lemma_scaled_range(bpm);
    let s = bpm.scaled();
    let u = signature.beat_unit as int;
    assert(FRACTION <= s * u <= 12800 * FRACTION) by (nonlinear_arith)
        requires
            FRACTION <= s <= 400 * FRACTION,
            1 <= u <= 32,
    ;
}

/// Rounding is exact to half a unit, whatever the multiple.
proof fn lemma_rounded_error(n: int, a: int, b: int)
    requires
        b > 0,
    ensures
        2 * (rounded(n, a, b) * b) <= 2 * (n * a) + b,
        2 * (n * a) + b < 2 * (rounded(n, a, b) * b) + 2 * b,
{
    let x = 2 * (n * a) + b;
    let q = x / (2 * b);
    vstd::arithmetic::div_mod::lemma_fundamental_div_mod(x, 2 * b);
    vstd::arithmetic::div_mod::lemma_mod_bound(x, 2 * b);
    assert((2 * b) * q == 2 * (q * b)) by (nonlinear_arith);
}

/// Where the multiples of `a / b`, rounded, stand relative to a position.
proof fn lemma_rounded_at_most(n: int, a: int, b: int, pos: int)
    requires
        b > 0,
    ensures
        rounded(n, a, b) <= pos <==> 2 * (n * a) < b * (2 * pos + 1),
{
    let r = rounded(n, a, b);
    lemma_rounded_error(n, a, b);
    assert(b * (2 * pos + 1) == 2 * (pos * b) + b) by (nonlinear_arith);
    if r <= pos {
        assert(r * b <= pos * b) by (nonlinear_arith)
            requires
                r <= pos,
                b > 0,
        ;
    } else {
        assert(r * b >= pos * b + b) by (nonlinear_arith)
            requires
                r >= pos + 1,
                b > 0,
        ;
    }
}

proof fn lemma_rounded_grows(n: int, m: int, a: int, b: int)
    requires
        a >= b > 0,
        n <= m,
    ensures
        rounded(m, a, b) - rounded(n, a, b) >= m - n,
{
    // rounded(n) + (m - n) is the rounding of (n * a + (m - n) * b) / b, and a >= b.
    let k = m - n;
    let x = 2 * (n * a) + b;
    let y = 2 * (m * a) + b;
    assert(y >= x + k * (2 * b)) by (nonlinear_arith)
        requires
            y == 2 * (m * a) + b,
            x == 2 * (n * a) + b,
            k == m - n,
            k >= 0,
            a >= b,
    ;
    vstd::arithmetic::div_mod::lemma_hoist_over_denominator(x, k, (2 * b) as nat);
    vstd::arithmetic::div_mod::lemma_div_is_ordered(x + k * (2 * b), y, 2 * b);
}

impl Timeline {
    pub closed spec fn rate(self) -> int {
        self.sample_rate as int
    }

    pub closed spec fn tempo(self) -> Bpm {
        self.bpm
    }

    pub closed spec fn metre(self) -> TimeSignature {
        self.signature
    }

    /// The same sample axis under another tempo and metre.
    pub closed spec fn retimed(self, bpm: Bpm, signature: TimeSignature) -> Timeline {
        Timeline { sample_rate: self.sample_rate, bpm, signature }
    }

    /// Another tempo keeps the sample axis.
    pub proof fn a_retimed_timeline_keeps_its_rate(self, bpm: Bpm, signature: TimeSignature)
        ensures
            self.retimed(bpm, signature).rate() == self.rate(),
            self.retimed(bpm, signature).tempo() == bpm,
            self.retimed(bpm, signature).metre() == signature,
    {
    }

    /// Beats per bar, as a number.
    pub open spec fn per_bar(self) -> int {
        self.metre().beats_per_bar as int
    }

    #[verifier::type_invariant]
    pub closed spec fn wf(self) -> bool {
        tempo_error(self.sample_rate, self.bpm, self.signature) is None
    }

    /// The beat length in samples is this over [`Timeline::over`].
    pub open spec fn length(self) -> int {
        beat_numerator(self.rate())
    }

    pub open spec fn over(self) -> int {
        beat_denominator(self.tempo(), self.metre())
    }

    /// Position of beat `n`, counted from zero: `n` beat lengths, rounded once.
    pub open spec fn beat_at(self, n: int) -> int {
        rounded(n, self.length(), self.over())
    }

    /// Position of bar `bar`, counted from zero.
    pub open spec fn bar_at(self, bar: int) -> int {
        self.beat_at(bar * self.per_bar())
    }

    /// The beat a position lies in.
    pub open spec fn beat_of(self, pos: int) -> int {
        (self.over() * (2 * pos + 1) - 1) / (2 * self.length())
    }

    /// The bar a position lies in.
    pub open spec fn bar_of(self, pos: int) -> int {
        self.beat_of(pos) / self.per_bar()
    }

    /// The first bar boundary that is not before a position.
    pub open spec fn boundary_from(self, pos: int) -> int {
        if self.bar_at(self.bar_of(pos)) == pos {
            pos
        } else {
            self.bar_at(self.bar_of(pos) + 1)
        }
    }

    /// Whether a beat has a number and a position that fit into machine words.
    pub open spec fn reaches(self, n: int) -> bool {
        0 <= n < MAX_BEAT && self.beat_at(n) <= u64::MAX
    }

    /// Check a tempo before a timeline is built for it.
    pub fn validate(sample_rate: u32, bpm: Bpm, signature: TimeSignature) -> (r: Result<
        (),
        TempoError,
    >)
        ensures
            r == (match tempo_error(sample_rate, bpm, signature) {
                Some(error) => Err::<(), TempoError>(error),
                None => Ok(()),
            }),
    {
        if bpm.bits < BPM_LOWEST || bpm.bits > BPM_HIGHEST {
            return Err(TempoError::Bpm);
        }
        if signature.beats_per_bar == 0 {
            return Err(TempoError::BeatsPerBar);
        }
        let unit: u32 = signature.beat_unit;
        if !(unit == 1 || unit == 2 || unit == 4 || unit == 8 || unit == 16 || unit == 32) {
            return Err(TempoError::BeatUnit(unit));
        }
        proof {
            lemma_denominator_range(bpm, signature);
        }
        let a: u128 = sample_rate as u128 * 240 * FRACTION as u128;
        let scaled: u128 = bpm.compute_scaled();
        assert(scaled * unit <= 12800 * FRACTION);
        let b: u128 = scaled * unit as u128;
        if a < b {
            return Err(TempoError::Rate(sample_rate));
        }
        Ok(())
    }

    pub fn new(sample_rate: u32, bpm: Bpm, signature: TimeSignature) -> (r: Self)
        requires
            tempo_error(sample_rate, bpm, signature) is None,
        ensures
            r.wf(),
            r.rate() == sample_rate,
            r.tempo() == bpm,
            r.metre() == signature,
    {
        Timeline { sample_rate, bpm, signature }
    }

    /// The same sample axis under another tempo and metre.
    pub fn with_tempo(&self, bpm: Bpm, signature: TimeSignature) -> (r: Result<Self, TempoError>)
        ensures
            match tempo_error(self.rate() as u32, bpm, signature) {
                Some(error) => r == Err::<Timeline, TempoError>(error),
                None => {
                    &&& r == Ok::<Timeline, TempoError>(self.retimed(bpm, signature))
                    &&& self.retimed(bpm, signature).wf()
                    &&& self.retimed(bpm, signature).rate() == self.rate()
                    &&& self.retimed(bpm, signature).tempo() == bpm
                    &&& self.retimed(bpm, signature).metre() == signature
                },
            },
    {
        match Timeline::validate(self.sample_rate, bpm, signature) {
            Ok(()) => Ok(Timeline::new(self.sample_rate, bpm, signature)),
            Err(error) => Err(error),
        }
    }

    pub fn sample_rate(&self) -> (r: u32)
        ensures
            r == self.rate(),
            r > 0,
    {
        proof {
            use_type_invariant(self);
            lemma_denominator_range(self.bpm, self.signature);
        }
        self.sample_rate
    }

    pub fn bpm(&self) -> (r: Bpm)
        ensures
            r == self.tempo(),
            r.valid(),
    {
        proof {
            use_type_invariant(self);
        }
        self.bpm
    }

    pub fn signature(&self) -> (r: TimeSignature)
        ensures
            r == self.metre(),
    {
        self.signature
    }

    pub fn beats_per_bar(&self) -> (r: u64)
        ensures
            r == self.per_bar(),
            r > 0,
    {
        proof {
            use_type_invariant(self);
        }
        self.signature.beats_per_bar as u64
    }

    fn fraction(&self) -> (r: (u128, u128))
        ensures
            r.0 == self.length(),
            r.1 == self.over(),
            FRACTION <= r.1 <= 12800 * FRACTION,
            r.1 <= r.0 <= 0x1_0000_0000 * 240 * FRACTION,
            self.per_bar() > 0,
    {
        proof {
            use_type_invariant(self);
            lemma_denominator_range(self.bpm, self.signature);
            assert(self.sample_rate * 240 * FRACTION <= 0x1_0000_0000 * 240 * FRACTION)
                by (nonlinear_arith)
                requires
                    self.sample_rate <= 0x1_0000_0000,
            ;
        }
        let a: u128 = self.sample_rate as u128 * 240 * FRACTION as u128;
        let scaled: u128 = self.bpm.compute_scaled();
        let b: u128 = scaled * self.signature.beat_unit as u128;
        (a, b)
    }

    /// Position of beat `n`, counted from zero.
    pub fn beat_start(&self, n: u64) -> (r: u64)
        requires
            self.reaches(n as int),
        ensures
            r == self.beat_at(n as int),
    {
        self.wide_beat_start(n) as u64
    }

    /// Whether beat `n` can be reached.
    pub fn reaches_beat(&self, n: u64) -> (r: bool)
        ensures
            r == self.reaches(n as int),
    {
        n < MAX_BEAT && self.wide_beat_start(n) <= 0xffff_ffff_ffff_ffff
    }

    /// Length of the first `bars` bars, as far as positions go.
    pub open spec fn bars_long(self, bars: int) -> int {
        if self.bar_at(bars) > u64::MAX {
            u64::MAX as int
        } else {
            self.bar_at(bars)
        }
    }

    /// Length of the first `bars` bars. What cannot be counted is as long as positions go.
    pub fn length_of_bars(&self, bars: u32) -> (r: u64)
        ensures
            r == self.bars_long(bars as int),
    {
        proof {
            use_type_invariant(self);
            the_first_beat_is_at_zero(*self);
            bars_are_ordered(*self, 0, bars as int);
        }
        assert(0 <= bars * self.signature.beats_per_bar <= 0xffff_ffff * 0xffff_ffff) by (nonlinear_arith)
            requires
                0 <= bars <= 0xffff_ffff,
                0 <= self.signature.beats_per_bar <= 0xffff_ffff,
        ;
        let wide: u128 = self.wide_beat_start(bars as u64 * self.signature.beats_per_bar as u64);
        if wide > 0xffff_ffff_ffff_ffff {
            0xffff_ffff_ffff_ffff
        } else {
            wide as u64
        }
    }

    fn wide_beat_start(&self, n: u64) -> (r: u128)
        ensures
            r == self.beat_at(n as int),
    {
        let (a, b) = self.fraction();
        let whole: u128 = a / b;
        let rest: u128 = a % b;
        // The product of a beat number and the rest does not fit, so it is divided in two steps.
        let upper: u128 = n as u128 / 16;
        let lower: u128 = n as u128 % 16;
        assert(0 <= upper * rest <= 0x1000_0000_0000_0000 * (12800 * FRACTION)) by (nonlinear_arith)
            requires
                0 <= upper <= 0x1000_0000_0000_0000,
                0 <= rest <= 12800 * FRACTION,
        ;
        let steps: u128 = upper * rest / b;
        let left: u128 = upper * rest % b;
        assert(0 <= lower * rest <= 16 * (12800 * FRACTION)) by (nonlinear_arith)
            requires
                0 <= lower <= 16,
                0 <= rest <= 12800 * FRACTION,
        ;
        let small: u128 = left * 16 + lower * rest;
        proof {
            let big: int = a as int;
            let n_int: int = n as int;
            let w: int = whole as int;
            let t: int = rest as int;
            let d: int = b as int;
            vstd::arithmetic::div_mod::lemma_fundamental_div_mod(big, d);
            assert(big == w * d + t) by (nonlinear_arith)
                requires
                    big == d * w + t,
            ;
            let h: int = upper as int;
            let l: int = lower as int;
            let q: int = steps as int;
            let r: int = left as int;
            vstd::arithmetic::div_mod::lemma_fundamental_div_mod(h * t, d);
            // n t == (16 h + l) t == 16 (q d + r) + l t
            assert(n_int * t == (16 * q) * d + small) by (nonlinear_arith)
                requires
                    n_int == 16 * h + l,
                    h * t == d * q + r,
                    small == r * 16 + l * t,
            ;
            // 2 n a + b == 2 n (w d + t) + d == (n w + 16 q) (2 d) + (2 s + d)
            assert(2 * (n_int * big) + d == (n_int * w + 16 * q) * (2 * d) + (2 * small + d))
                by (nonlinear_arith)
                requires
                    big == w * d + t,
                    n_int * t == (16 * q) * d + small,
            ;
            vstd::arithmetic::div_mod::lemma_hoist_over_denominator(
                2 * small + d,
                n_int * w + 16 * q,
                (2 * d) as nat,
            );
            assert(q <= 0x1000_0000_0000_0000 * 12800) by (nonlinear_arith)
                requires
                    h * t == d * q + r,
                    r >= 0,
                    d >= FRACTION,
                    h * t <= 0x1000_0000_0000_0000 * (12800 * FRACTION),
            ;
            assert(w <= 0x1_0000_0000 * 240) by (nonlinear_arith)
                requires
                    big == w * d + t,
                    t >= 0,
                    d >= FRACTION,
                    big <= 0x1_0000_0000 * 240 * FRACTION,
            ;
            assert(0 <= n_int * w <= 0xffff_ffff_ffff_ffff * (0x1_0000_0000 * 240))
                by (nonlinear_arith)
                requires
                    0 <= n_int <= 0xffff_ffff_ffff_ffff,
                    0 <= w <= 0x1_0000_0000 * 240,
            ;
        }
        let part: u128 = (2 * small + b) / (2 * b);
        n as u128 * whole + 16 * steps + part
    }

    /// Half a beat in samples, rounded down.
    pub open spec fn half_beat_of(self) -> int {
        self.length() / (2 * self.over())
    }

    pub fn half_beat(&self) -> (r: u64)
        ensures
            r == self.half_beat_of(),
    {
        let (a, b) = self.fraction();
        proof {
            let x: int = a as int;
            let d: int = 2 * b;
            vstd::arithmetic::div_mod::lemma_fundamental_div_mod(x, d);
            assert(x / d <= 0x1_0000_0000 * 240) by (nonlinear_arith)
                requires
                    x == d * (x / d) + x % d,
                    x % d >= 0,
                    d >= FRACTION,
                    x <= 0x1_0000_0000 * 240 * FRACTION,
            ;
        }
        (a / (2 * b)) as u64
    }

    /// How many whole eighths of a beat a distance covers, as far as seven.
    pub open spec fn eighths_in(self, distance: int) -> int {
        let n = 8 * (distance * self.over()) / self.length();
        if n > 7 {
            7
        } else {
            n
        }
    }

    /// How many eighths of a beat a distance covers, as far as seven.
    pub fn eighths(&self, distance: u64) -> (r: u64)
        ensures
            r == self.eighths_in(distance as int),
            r == ({
                let n = 8 * (distance * self.over()) / self.length();
                if n > 7 {
                    7
                } else {
                    n
                }
            }),
    {
        let (a, b) = self.fraction();
        let d: u128 = distance as u128;
        // No beat is longer than this, and the product of anything longer would not fit.
        if distance > 0x100_0000_0000 {
            proof {
                let x: int = distance as int;
                let w: int = b as int;
                let l: int = a as int;
                assert(x * w >= l) by (nonlinear_arith)
                    requires
                        x > 0x100_0000_0000,
                        w >= FRACTION,
                        l <= 0x1_0000_0000 * 240 * FRACTION,
                ;
                vstd::arithmetic::div_mod::lemma_div_is_ordered(8 * l, 8 * (x * w), l);
                vstd::arithmetic::div_mod::lemma_div_by_multiple(8, l);
            }
            return 7;
        }
        proof {
            let x: int = distance as int;
            let w: int = b as int;
            assert(0 <= x * w <= 0x100_0000_0000 * (12800 * FRACTION)) by (nonlinear_arith)
                requires
                    0 <= x <= 0x100_0000_0000,
                    0 <= w <= 12800 * FRACTION,
            ;
        }
        let n: u128 = 8 * (d * b) / a;
        if n > 7 {
            7
        } else {
            n as u64
        }
    }

    /// Whether a distance is more than a quarter of a beat.
    pub open spec fn beyond_a_quarter(self, distance: int) -> bool {
        4 * (distance * self.over()) > self.length()
    }

    pub fn is_beyond_a_quarter(&self, distance: u64) -> (r: bool)
        ensures
            r == self.beyond_a_quarter(distance as int),
            !r ==> distance <= 0x100_0000_0000,
    {
        let (a, b) = self.fraction();
        // No beat is longer than this, and the product of anything longer would not fit.
        if distance > 0x100_0000_0000 {
            proof {
                let d: int = distance as int;
                let w: int = b as int;
                assert(4 * (d * w) > 0x1_0000_0000 * 240 * FRACTION) by (nonlinear_arith)
                    requires
                        d > 0x100_0000_0000,
                        w >= FRACTION,
                ;
            }
            return true;
        }
        proof {
            let d: int = distance as int;
            let w: int = b as int;
            assert(0 <= d * w <= 0x100_0000_0000 * (12800 * FRACTION)) by (nonlinear_arith)
                requires
                    0 <= d <= 0x100_0000_0000,
                    0 <= w <= 12800 * FRACTION,
            ;
        }
        4 * (distance as u128 * b) > a
    }

    /// The beat a position lies in.
    pub fn beat_index_at(&self, pos: u64) -> (r: u64)
        requires
            pos < MAX_BEAT,
        ensures
            r == self.beat_of(pos as int),
            r <= pos,
    {
        let (a, b) = self.fraction();
        proof {
            let p: int = pos as int;
            let d: int = b as int;
            let big: int = a as int;
            assert(0 < d * (2 * p + 1) <= 57646075230342348800 * 2305843009213693952)
                by (nonlinear_arith)
                requires
                    0 <= p < 1152921504606846976,
                    0 < d <= 57646075230342348800,
            ;
            assert(b * (2 * pos + 1) <= u128::MAX);
            let x = d * (2 * p + 1) - 1;
            let q = x / (2 * big);
            vstd::arithmetic::div_mod::lemma_fundamental_div_mod(x, 2 * big);
            vstd::arithmetic::div_mod::lemma_div_pos_is_pos(x, 2 * big);
            assert(q <= p) by (nonlinear_arith)
                requires
                    x == (2 * big) * q + x % (2 * big),
                    x % (2 * big) >= 0,
                    x == d * (2 * p + 1) - 1,
                    big >= d > 0,
                    p >= 0,
            ;
        }
        ((b * (2 * pos as u128 + 1) - 1) / (2 * a)) as u64
    }

    /// Position of a beat inside a bar, both counted from zero.
    pub fn position_of(&self, bar: u64, beat: u32) -> (r: u64)
        requires
            self.reaches(bar * self.per_bar() + beat),
        ensures
            r == self.beat_at(bar * self.per_bar() + beat),
    {
        proof {
            use_type_invariant(self);
            assert(bar * self.per_bar() >= 0) by (nonlinear_arith)
                requires
                    bar >= 0,
                    self.per_bar() >= 0,
            ;
        }
        self.beat_start(bar * self.beats_per_bar() + beat as u64)
    }

    /// Position of a bar, counted from zero.
    pub fn bar_start(&self, bar: u64) -> (r: u64)
        requires
            self.reaches(bar * self.per_bar()),
        ensures
            r == self.bar_at(bar as int),
    {
        self.position_of(bar, 0)
    }

    /// The bar a position lies in.
    pub fn bar_index_at(&self, pos: u64) -> (r: u64)
        requires
            pos < MAX_BEAT,
        ensures
            r == self.bar_of(pos as int),
            r <= pos,
    {
        proof {
            use_type_invariant(self);
            a_position_lies_in_its_beat(*self, pos as int);
            assert(self.beat_of(pos as int) / self.per_bar() <= self.beat_of(pos as int)) by {
                vstd::arithmetic::div_mod::lemma_div_nonincreasing(
                    self.beat_of(pos as int),
                    self.per_bar(),
                );
            }
        }
        self.beat_index_at(pos) / self.beats_per_bar()
    }

    /// The first bar boundary that is not before `pos`.
    pub fn bar_start_at_or_after(&self, pos: u64) -> (r: u64)
        requires
            self.reaches_past(pos as int),
        ensures
            r == self.boundary_from(pos as int),
            r >= pos,
    {
        proof {
            use_type_invariant(self);
            a_position_lies_in_its_bar(*self, pos as int);
            lemma_reaches_past(*self, pos as int);
        }
        let bar: u64 = self.bar_index_at(pos);
        let here: u64 = self.bar_start(bar);
        if here == pos {
            pos
        } else {
            self.bar_start(bar + 1)
        }
    }

    /// Number of samples between the start of bar `from` and the start of the bar `bars` later.
    pub fn span_bars(&self, from: u64, bars: u32) -> (r: u64)
        requires
            self.reaches((from + bars) * self.per_bar()),
        ensures
            r == self.bar_at(from + bars) - self.bar_at(from as int),
    {
        proof {
            use_type_invariant(self);
            let k = self.per_bar();
            assert(0 <= from * k <= (from + bars) * k) by (nonlinear_arith)
                requires
                    k > 0,
                    from >= 0,
                    bars >= 0,
            ;
            assert((from + bars) * k >= from + bars) by (nonlinear_arith)
                requires
                    k >= 1,
                    from + bars >= 0,
            ;
            lemma_beats_in_order(*self, from * k, (from + bars) * k);
        }
        self.bar_start(from + bars as u64) - self.bar_start(from)
    }

    /// A position in bars, beats and samples.
    pub fn locate(&self, pos: u64) -> (r: Located)
        requires
            pos < MAX_BEAT,
        ensures
            r.bar == self.bar_of(pos as int),
            r.beat == self.beat_of(pos as int) % self.per_bar(),
            r.offset == pos - self.beat_at(self.beat_of(pos as int)),
    {
        proof {
            use_type_invariant(self);
            a_position_lies_in_its_beat(*self, pos as int);
            vstd::arithmetic::div_mod::lemma_div_nonincreasing(
                self.beat_of(pos as int),
                self.per_bar(),
            );
        }
        let beat: u64 = self.beat_index_at(pos);
        Located {
            bar: beat / self.beats_per_bar(),
            beat: (beat % self.beats_per_bar()) as u32,
            offset: pos - self.beat_start(beat),
        }
    }

    /// Whether the bar after the one a position lies in can be reached.
    pub open spec fn reaches_past(self, pos: int) -> bool {
        0 <= pos < MAX_BEAT && self.reaches((self.bar_of(pos) + 1) * self.per_bar())
    }
}

proof fn lemma_reaches_past(t: Timeline, pos: int)
    requires
        t.wf(),
        t.reaches_past(pos),
    ensures
        t.reaches(t.bar_of(pos) * t.per_bar()),
{
    let k = t.per_bar();
    let bar = t.bar_of(pos);
    a_position_lies_in_its_bar(t, pos);
    assert(0 <= bar * k <= (bar + 1) * k) by (nonlinear_arith)
        requires
            k > 0,
            bar >= 0,
    ;
    lemma_beats_in_order(t, bar * k, (bar + 1) * k);
}

proof fn lemma_beats_in_order(t: Timeline, n: int, m: int)
    requires
        t.wf(),
        n <= m,
    ensures
        t.beat_at(m) - t.beat_at(n) >= m - n,
{
    lemma_denominator_range(t.bpm, t.signature);
    lemma_rounded_grows(n, m, t.length(), t.over());
}

// ---------------------------------------------------------------------------------------------
// Laws
// ---------------------------------------------------------------------------------------------

/// A sample rate, a tempo and a metre make one timeline and no other.
pub proof fn a_timeline_is_its_rate_tempo_and_metre(a: Timeline, b: Timeline)
    requires
        a.rate() == b.rate(),
        a.tempo() == b.tempo(),
        a.metre() == b.metre(),
    ensures
        a == b,
{
}

/// A position lies in a beat exactly where it is not before its start and before the next one.
pub proof fn a_beat_is_what_lies_between_two_starts(t: Timeline, n: int, pos: int)
    requires
        t.wf(),
        pos >= 0,
        t.beat_at(n) <= pos < t.beat_at(n + 1),
    ensures
        t.beat_of(pos) == n,
{
    a_position_lies_in_its_beat(t, pos);
    let k = t.beat_of(pos);
    if k < n {
        lemma_beats_in_order(t, k + 1, n);
    } else if k > n {
        lemma_beats_in_order(t, n + 1, k);
    }
}

/// A later position lies in the same beat or in a later one.
pub proof fn beats_follow_positions(t: Timeline, a: int, b: int)
    requires
        t.wf(),
        0 <= a <= b,
    ensures
        t.beat_of(a) <= t.beat_of(b),
{
    a_position_lies_in_its_beat(t, a);
    a_position_lies_in_its_beat(t, b);
    if t.beat_of(b) < t.beat_of(a) {
        lemma_beats_in_order(t, t.beat_of(b) + 1, t.beat_of(a));
    }
}

/// Every beat before one that can be reached can be reached.
pub proof fn earlier_beats_are_reached(t: Timeline, n: int, m: int)
    requires
        t.wf(),
        t.reaches(m),
        0 <= n <= m,
    ensures
        t.reaches(n),
{
    lemma_beats_in_order(t, n, m);
}

/// The grid starts at position zero.
pub proof fn the_first_beat_is_at_zero(t: Timeline)
    requires
        t.wf(),
    ensures
        t.beat_at(0) == 0,
        t.bar_at(0) == 0,
{
    lemma_denominator_range(t.bpm, t.signature);
    let b = t.over();
    assert(0 * t.length() == 0);
    assert(0 * t.per_bar() == 0);
    assert(b / (2 * b) == 0) by {
        vstd::arithmetic::div_mod::lemma_basic_div(b, 2 * b);
    }
}

/// Rounding error does not accumulate: every beat, however late, lies within half a sample of its
/// exact place.
pub proof fn every_beat_is_within_half_a_sample(t: Timeline, n: int)
    requires
        t.wf(),
    ensures
        -t.over() <= 2 * (t.beat_at(n) * t.over() - n * t.length()) <= t.over(),
{
    lemma_denominator_range(t.bpm, t.signature);
    lemma_rounded_error(n, t.length(), t.over());
}

/// A beat has a length, and a quarter of one is far shorter than a signed word can count.
pub proof fn a_beat_has_a_length(t: Timeline)
    requires
        t.wf(),
    ensures
        t.over() > 0,
        t.length() > 0,
        forall|d: int| d >= 0 && !#[trigger] t.beyond_a_quarter(d) ==> d <= 0x100_0000_0000,
{
    lemma_denominator_range(t.bpm, t.signature);
    assert forall|d: int| d >= 0 && !#[trigger] t.beyond_a_quarter(d) implies d
        <= 0x100_0000_0000 by {
        let w = t.over();
        if d > 0x100_0000_0000 {
            assert(4 * (d * w) > 0x1_0000_0000 * 240 * FRACTION) by (nonlinear_arith)
                requires
                    d > 0x100_0000_0000,
                    w >= FRACTION,
            ;
        }
    }
}

/// A later beat lies later, and every beat is at least one sample long.
pub proof fn beats_are_strictly_ordered(t: Timeline, n: int, m: int)
    requires
        t.wf(),
        n < m,
    ensures
        t.beat_at(n) < t.beat_at(m),
{
    lemma_beats_in_order(t, n, m);
}

/// A later bar lies later, and every bar is at least one sample long.
pub proof fn bars_are_ordered(t: Timeline, a: int, b: int)
    requires
        t.wf(),
        a <= b,
    ensures
        t.bar_at(b) - t.bar_at(a) >= b - a,
{
    let k = t.per_bar();
    assert(b * k - a * k >= b - a) by (nonlinear_arith)
        requires
            a <= b,
            k >= 1,
    ;
    lemma_beats_in_order(t, a * k, b * k);
}

/// A position lies between the start of its beat and the start of the next one.
pub proof fn a_position_lies_in_its_beat(t: Timeline, pos: int)
    requires
        t.wf(),
        pos >= 0,
    ensures
        0 <= t.beat_of(pos) <= pos,
        t.beat_at(t.beat_of(pos)) <= pos < t.beat_at(t.beat_of(pos) + 1),
{
    lemma_denominator_range(t.bpm, t.signature);
    let a = t.length();
    let b = t.over();
    let x = b * (2 * pos + 1) - 1;
    let n = t.beat_of(pos);
    assert(b * (2 * pos + 1) >= 1) by (nonlinear_arith)
        requires
            b >= 1,
            pos >= 0,
    ;
    vstd::arithmetic::div_mod::lemma_fundamental_div_mod(x, 2 * a);
    vstd::arithmetic::div_mod::lemma_mod_bound(x, 2 * a);
    vstd::arithmetic::div_mod::lemma_div_pos_is_pos(x, 2 * a);
    assert((2 * a) * n == 2 * (n * a)) by (nonlinear_arith);
    assert(2 * ((n + 1) * a) == 2 * (n * a) + 2 * a) by (nonlinear_arith);
    lemma_rounded_at_most(n, a, b, pos);
    lemma_rounded_at_most(n + 1, a, b, pos);
    assert(n <= pos) by (nonlinear_arith)
        requires
            2 * (n * a) <= x,
            x == b * (2 * pos + 1) - 1,
            a >= b > 0,
            pos >= 0,
    ;
}

/// The beat that starts at a position is the beat that position lies in.
pub proof fn a_beat_start_lies_in_that_beat(t: Timeline, n: int)
    requires
        t.wf(),
        n >= 0,
    ensures
        t.beat_of(t.beat_at(n)) == n,
{
    the_first_beat_is_at_zero(t);
    lemma_beats_in_order(t, 0, n);
    let pos = t.beat_at(n);
    a_position_lies_in_its_beat(t, pos);
    let k = t.beat_of(pos);
    if k < n {
        lemma_beats_in_order(t, k + 1, n);
    } else if k > n {
        lemma_beats_in_order(t, n, k);
    }
}

/// A position lies between the start of its bar and the start of the next one.
pub proof fn a_position_lies_in_its_bar(t: Timeline, pos: int)
    requires
        t.wf(),
        pos >= 0,
    ensures
        0 <= t.bar_of(pos) <= pos,
        t.bar_at(t.bar_of(pos)) <= pos < t.bar_at(t.bar_of(pos) + 1),
{
    a_position_lies_in_its_beat(t, pos);
    let k = t.per_bar();
    let n = t.beat_of(pos);
    let bar = t.bar_of(pos);
    vstd::arithmetic::div_mod::lemma_fundamental_div_mod(n, k);
    vstd::arithmetic::div_mod::lemma_mod_bound(n, k);
    vstd::arithmetic::div_mod::lemma_div_pos_is_pos(n, k);
    vstd::arithmetic::div_mod::lemma_div_nonincreasing(n, k);
    assert(bar * k == k * bar) by (nonlinear_arith);
    assert((bar + 1) * k == k * bar + k) by (nonlinear_arith);
    lemma_beats_in_order(t, bar * k, n);
    lemma_beats_in_order(t, n + 1, (bar + 1) * k);
}

/// The bar that starts at a position is the bar that position lies in.
pub proof fn a_bar_start_lies_in_that_bar(t: Timeline, bar: int)
    requires
        t.wf(),
        bar >= 0,
    ensures
        t.bar_of(t.bar_at(bar)) == bar,
{
    let k = t.per_bar();
    assert(bar * k >= 0) by (nonlinear_arith)
        requires
            bar >= 0,
            k > 0,
    ;
    a_beat_start_lies_in_that_beat(t, bar * k);
    vstd::arithmetic::div_mod::lemma_div_by_multiple(bar, k);
}

/// The next bar boundary is the first one that is not before the position: it is a boundary, it is
/// not before, and every earlier boundary is.
pub proof fn the_next_boundary_is_the_first_one(t: Timeline, pos: int, bar: int)
    requires
        t.wf(),
        pos >= 0,
    ensures
        t.boundary_from(pos) >= pos,
        t.bar_at(t.bar_of(t.boundary_from(pos))) == t.boundary_from(pos),
        t.bar_at(bar) >= pos ==> t.bar_at(bar) >= t.boundary_from(pos),
{
    a_position_lies_in_its_bar(t, pos);
    let here = t.bar_of(pos);
    let k = t.per_bar();
    a_bar_start_lies_in_that_bar(t, here + 1);
    if t.bar_at(here) != pos && t.bar_at(bar) >= pos {
        if bar <= here {
            assert(bar * k <= here * k) by (nonlinear_arith)
                requires
                    bar <= here,
                    k > 0,
            ;
            lemma_beats_in_order(t, bar * k, here * k);
        } else {
            assert((here + 1) * k <= bar * k) by (nonlinear_arith)
                requires
                    here + 1 <= bar,
                    k > 0,
            ;
            lemma_beats_in_order(t, (here + 1) * k, bar * k);
        }
    }
}

/// A boundary is its own next boundary.
pub proof fn a_boundary_stays(t: Timeline, bar: int)
    requires
        t.wf(),
        bar >= 0,
    ensures
        t.boundary_from(t.bar_at(bar)) == t.bar_at(bar),
{
    a_bar_start_lies_in_that_bar(t, bar);
}

/// Bars, beats and samples name every position exactly once: what [`Timeline::locate`] takes apart,
/// the grid puts together again.
pub proof fn a_located_position_is_that_position(t: Timeline, pos: int)
    requires
        t.wf(),
        pos >= 0,
    ensures
        t.beat_at(t.bar_of(pos) * t.per_bar() + t.beat_of(pos) % t.per_bar()) + (pos - t.beat_at(
            t.beat_of(pos),
        )) == pos,
        0 <= t.beat_of(pos) % t.per_bar() < t.per_bar(),
{
    let k = t.per_bar();
    let n = t.beat_of(pos);
    vstd::arithmetic::div_mod::lemma_fundamental_div_mod(n, k);
    vstd::arithmetic::div_mod::lemma_mod_bound(n, k);
    assert(t.bar_of(pos) * k == k * (n / k)) by (nonlinear_arith)
        requires
            t.bar_of(pos) == n / k,
    ;
}

/// Rounding goes to the nearest integer, and upwards in the middle.
pub proof fn rounding_is_to_the_nearest(n: int, a: int, b: int)
    requires
        b > 0,
    ensures
        -b < 2 * (rounded(n, a, b) * b - n * a) <= b,
{
    lemma_rounded_error(n, a, b);
}

/// A tempo is counted in quarter notes a minute: beat `n` stands where `n` beats end, each four
/// quarters over the beat unit, to within half a sample.
pub proof fn beats_pass_at_the_tempo(t: Timeline, n: int)
    requires
        t.wf(),
    ensures
        ({
            let per = t.tempo().scaled() * t.metre().beat_unit;
            let exact = n * (t.rate() * 240 * 4503599627370496);
            -per < 2 * (t.beat_at(n) * per - exact) <= per
        }),
{
    lemma_denominator_range(t.tempo(), t.metre());
    lemma_rounded_error(n, t.length(), t.over());
}

/// A bar has as many beats as the metre says, and starts with the first of them.
pub proof fn a_bar_is_its_beats(t: Timeline, bar: int, beat: int)
    requires
        t.wf(),
        bar >= 0,
        0 <= beat < t.metre().beats_per_bar,
    ensures
        t.bar_at(bar) == t.beat_at(bar * t.metre().beats_per_bar),
        t.bar_of(t.beat_at(bar * t.metre().beats_per_bar + beat)) == bar,
{
    let k = t.per_bar();
    let n = bar * k + beat;
    assert(n >= 0) by (nonlinear_arith)
        requires
            n == bar * k + beat,
            bar >= 0,
            k > 0,
            beat >= 0,
    ;
    a_beat_start_lies_in_that_beat(t, n);
    vstd::arithmetic::div_mod::lemma_fundamental_div_mod_converse(n, k, bar, beat);
}

/// A tempo is accepted exactly where it is a number from 1 to 400, a bar has a beat, the beat is a
/// note value, and a beat is at least one sample long. The first of these that fails is the one that
/// is named.
pub proof fn a_tempo_is_accepted_where_it_can_be_counted(
    sample_rate: u32,
    bpm: Bpm,
    signature: TimeSignature,
)
    ensures
        ({
            let error = tempo_error(sample_rate, bpm, signature);
            let in_range = 0x3ff0_0000_0000_0000 <= bpm.bits <= 0x4079_0000_0000_0000;
            let unit = signature.beat_unit;
            let note = unit == 1 || unit == 2 || unit == 4 || unit == 8 || unit == 16 || unit
                == 32;
            let long = sample_rate * 240 * 4503599627370496 >= bpm.scaled() * unit;
            &&& error is None <==> in_range && signature.beats_per_bar > 0 && note && long
            &&& !in_range ==> error == Some(TempoError::Bpm)
            &&& in_range && signature.beats_per_bar == 0 ==> error == Some(TempoError::BeatsPerBar)
            &&& in_range && signature.beats_per_bar > 0 && !note ==> error == Some(
                TempoError::BeatUnit(unit),
            )
            &&& in_range && signature.beats_per_bar > 0 && note && !long ==> error == Some(
                TempoError::Rate(sample_rate),
            )
        }),
{
}

/// The same fraction one binary place up is twice the tempo.
pub proof fn a_tempo_doubles_with_its_exponent(slow: Bpm, fast: Bpm)
    requires
        slow.valid(),
        fast.valid(),
        fast.bits == slow.bits + 4503599627370496,
    ensures
        fast.scaled() == 2 * slow.scaled(),
{
    lemma_scaled_range(slow);
    lemma_scaled_range(fast);
    let f = FRACTION as int;
    let e = slow.bits / FRACTION - 1023;
    assert(fast.bits % FRACTION == slow.bits % FRACTION && fast.bits / FRACTION == slow.bits
        / FRACTION + 1) by {
        vstd::arithmetic::div_mod::lemma_fundamental_div_mod(slow.bits as int, f);
        vstd::arithmetic::div_mod::lemma_fundamental_div_mod_converse(
            fast.bits as int,
            f,
            slow.bits as int / f + 1,
            slow.bits as int % f,
        );
    }
    let m = FRACTION + slow.bits % FRACTION;
    assert(power_of_two(e + 1) == 2 * power_of_two(e));
    assert(m * (2 * power_of_two(e)) == 2 * (m * power_of_two(e))) by (nonlinear_arith);
}

/// One quarter note a minute is one, and the fraction bits add their share to it.
pub proof fn a_tempo_grows_with_its_fraction(bpm: Bpm, fraction: u64)
    requires
        fraction < 4503599627370496,
        bpm.bits == 0x3ff0_0000_0000_0000 + fraction,
    ensures
        bpm.scaled() == 4503599627370496 + fraction,
{
    let f = FRACTION as int;
    vstd::arithmetic::div_mod::lemma_fundamental_div_mod_converse(
        bpm.bits as int,
        f,
        1023,
        fraction as int,
    );
}

/// Half a beat is half a beat, rounded down, and a quarter of a beat is exceeded exactly by what is
/// more than that.
pub proof fn parts_of_a_beat_are_exact(t: Timeline, distance: int)
    requires
        t.wf(),
        distance >= 0,
    ensures
        2 * (t.half_beat_of() * t.over()) <= t.length() < 2 * ((t.half_beat_of() + 1) * t.over()),
        t.beyond_a_quarter(distance) <==> 4 * distance * t.over() > t.length(),
{
    a_beat_has_a_length(t);
    let a = t.length();
    let b = t.over();
    let h = t.half_beat_of();
    vstd::arithmetic::div_mod::lemma_fundamental_div_mod(a, 2 * b);
    vstd::arithmetic::div_mod::lemma_mod_bound(a, 2 * b);
    assert(2 * (h * b) == (2 * b) * h && 2 * ((h + 1) * b) == (2 * b) * h + 2 * b)
        by (nonlinear_arith);
    assert(4 * distance * b == 4 * (distance * b)) by (nonlinear_arith);
}

/// The length of some bars is where the bar behind them begins, as far as positions go.
pub proof fn bars_are_as_long_as_they_reach(t: Timeline, bars: int)
    ensures
        t.bar_at(bars) <= u64::MAX ==> t.bars_long(bars) == t.bar_at(bars),
        t.bar_at(bars) > u64::MAX ==> t.bars_long(bars) == u64::MAX,
{
}

/// A valid tempo lies between one and four hundred quarter notes a minute.
pub proof fn a_valid_tempo_has_a_scale(bpm: Bpm)
    requires
        bpm.valid(),
    ensures
        4503599627370496 <= bpm.scaled() <= 400 * 4503599627370496,
{
    lemma_scaled_range(bpm);
}

/// A beat is shown in eighths of its own length: within the beat the count is the number of whole
/// eighths that have gone by, and it never passes seven.
pub proof fn a_beat_is_shown_in_its_eighths(t: Timeline, distance: int)
    requires
        t.wf(),
        distance >= 0,
    ensures
        ({
            let n = t.eighths_in(distance);
            &&& 0 <= n <= 7
            &&& n * t.length() <= 8 * (distance * t.over())
            &&& distance * t.over() < t.length() ==> 8 * (distance * t.over()) < (n + 1)
                * t.length()
        }),
{
    a_beat_has_a_length(t);
    let x = 8 * (distance * t.over());
    let l = t.length();
    assert(x >= 0) by (nonlinear_arith)
        requires
            x == 8 * (distance * t.over()),
            distance >= 0,
            t.over() >= 0,
    ;
    let q = x / l;
    assert(q * l <= x < (q + 1) * l && q >= 0) by (nonlinear_arith)
        requires
            q == x / l,
            x >= 0,
            l > 0,
    ;
    if q > 7 {
        assert(7 * l <= x) by (nonlinear_arith)
            requires
                q * l <= x,
                q > 7,
                l > 0,
        ;
    }
}

} // verus!
