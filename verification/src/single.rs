//! Single-precision numbers by their bit pattern.
//!
//! Gains, pan positions, effect knobs and samples travel through the library as the 32 bits of an
//! IEEE 754 number. Nothing here adds or multiplies; what the rules need is order, and the order of
//! such numbers is the order of their bit patterns, mirrored for the negative ones.
use vstd::prelude::*;
use vstd::string::*;
use crate::text::{decimal, digit, push_decimal};

verus! {

/// The bit that holds the sign.
pub const SIGN: u32 = 0x8000_0000;

/// Bit pattern of infinity. Every pattern above it, sign aside, is no number.
pub const INFINITY: u32 = 0x7f80_0000;

/// A single-precision number.
#[derive(Clone, Copy, Debug, PartialEq, Eq, Structural)]
pub struct Single {
    pub bits: u32,
}

impl Single {
    /// The bits without the sign.
    pub open spec fn magnitude(self) -> int {
        if self.bits < SIGN {
            self.bits as int
        } else {
            self.bits - SIGN
        }
    }

    pub open spec fn nan(self) -> bool {
        self.magnitude() > INFINITY
    }

    /// A number in the same order as the value. Both zeros have the same.
    pub open spec fn key(self) -> int {
        if self.bits < SIGN {
            self.magnitude()
        } else {
            -self.magnitude()
        }
    }

    /// `self <= other`, which is false where either is no number.
    pub open spec fn le(self, other: Single) -> bool {
        !self.nan() && !other.nan() && self.key() <= other.key()
    }

    /// `self < other`, which is false where either is no number.
    pub open spec fn lt(self, other: Single) -> bool {
        !self.nan() && !other.nan() && self.key() < other.key()
    }

    /// The value moved into a range, ends included. What is no number stays as it is.
    pub open spec fn clamped(self, low: Single, high: Single) -> Single {
        if self.lt(low) {
            low
        } else if high.lt(self) {
            high
        } else {
            self
        }
    }

    /// The value without its sign.
    pub open spec fn unsigned(self) -> Single {
        Single { bits: self.magnitude() as u32 }
    }

    /// Positive or negative zero.
    pub open spec fn zero(self) -> bool {
        self.magnitude() == 0
    }

    pub fn is_nan(self) -> (r: bool)
        ensures
            r == self.nan(),
    {
        let magnitude: u32 = if self.bits < SIGN {
            self.bits
        } else {
            self.bits - SIGN
        };
        magnitude > INFINITY
    }

    pub fn is_zero(self) -> (r: bool)
        ensures
            r == self.zero(),
    {
        self.bits == 0 || self.bits == SIGN
    }

    fn order(self) -> (r: i64)
        ensures
            r == self.key(),
    {
        if self.bits < SIGN {
            self.bits as i64
        } else {
            -((self.bits - SIGN) as i64)
        }
    }

    pub fn at_most(self, other: Single) -> (r: bool)
        ensures
            r == self.le(other),
    {
        !self.is_nan() && !other.is_nan() && self.order() <= other.order()
    }

    pub fn below(self, other: Single) -> (r: bool)
        ensures
            r == self.lt(other),
    {
        !self.is_nan() && !other.is_nan() && self.order() < other.order()
    }

    /// Whether the value lies in a range, ends included.
    pub fn within(self, low: Single, high: Single) -> (r: bool)
        ensures
            r == (low.le(self) && self.le(high)),
    {
        low.at_most(self) && self.at_most(high)
    }

    pub fn clamp(self, low: Single, high: Single) -> (r: Single)
        requires
            low.le(high),
        ensures
            r == self.clamped(low, high),
    {
        if self.below(low) {
            low
        } else if high.below(self) {
            high
        } else {
            self
        }
    }

    pub fn abs(self) -> (r: Single)
        ensures
            r == self.unsigned(),
    {
        Single {
            bits: if self.bits < SIGN {
                self.bits
            } else {
                self.bits - SIGN
            },
        }
    }

    /// The larger of two values. Where one is no number, it is the other.
    pub open spec fn larger(self, other: Single) -> Single {
        if self.nan() {
            other
        } else if other.nan() || other.key() <= self.key() {
            self
        } else {
            other
        }
    }

    pub fn max(self, other: Single) -> (r: Single)
        ensures
            r == self.larger(other),
    {
        if self.is_nan() {
            other
        } else if other.is_nan() || other.order() <= self.order() {
            self
        } else {
            other
        }
    }
}

// ---------------------------------------------------------------------------------------------
// Two decimals
// ---------------------------------------------------------------------------------------------

/// `n / 2^shift`, rounded to the nearest integer, to the even one in the middle.
pub open spec fn halved_even(n: int, shift: nat) -> int {
    let whole = vstd::arithmetic::power2::pow2(shift) as int;
    let q = n / whole;
    let rest = n % whole;
    if 2 * rest > whole || (2 * rest == whole && q % 2 == 1) {
        q + 1
    } else {
        q
    }
}

/// The significand of a finite number, as an integer.
pub open spec fn significand(magnitude: int) -> int {
    if magnitude / 0x80_0000 == 0 {
        magnitude
    } else {
        0x80_0000 + magnitude % 0x80_0000
    }
}

/// The value is the significand over two to this power, for numbers below `2^23`.
pub open spec fn binary_places(magnitude: int) -> int {
    if magnitude / 0x80_0000 == 0 {
        149
    } else {
        150 - magnitude / 0x80_0000
    }
}

/// A value below one hundred in hundredths, rounded to the nearest, to the even one in the middle.
pub open spec fn hundredths(value: Single) -> int {
    halved_even(100 * significand(value.magnitude()), binary_places(value.magnitude()) as nat)
}

/// A number of hundredths with two decimals.
pub open spec fn two_decimals(n: nat) -> Seq<char> {
    decimal(n / 100) + "."@ + seq![digit(n / 10 % 10), digit(n % 10)]
}

/// A value from zero to four as the displays write it, with two decimals.
pub open spec fn shown_hundredths(value: Single) -> Seq<char> {
    (if value.bits < SIGN {
        Seq::<char>::empty()
    } else {
        "-"@
    }) + two_decimals(hundredths(value) as nat)
}

/// Append a number of hundredths with two decimals.
pub fn push_two_decimals(out: &mut String, n: u64)
    ensures
        final(out)@ == old(out)@ + two_decimals(n as nat),
{
    push_decimal(out, n / 100);
    out.append(".");
    out.push((48u8 + (n / 10 % 10) as u8) as char);
    out.push((48u8 + (n % 10) as u8) as char);
    assert(out@ =~= old(out)@ + two_decimals(n as nat));
}

proof fn lemma_pow2_step(shift: nat)
    ensures
        vstd::arithmetic::power2::pow2(shift + 1) == 2 * vstd::arithmetic::power2::pow2(shift),
        vstd::arithmetic::power2::pow2(shift) > 0,
{
    vstd::arithmetic::power2::lemma_pow2_unfold(shift + 1);
    vstd::arithmetic::power2::lemma_pow2_pos(shift);
}

proof fn lemma_pow2_grows(a: nat, b: nat)
    requires
        a <= b,
    ensures
        vstd::arithmetic::power2::pow2(a) <= vstd::arithmetic::power2::pow2(b),
    decreases b,
{
    if a < b {
        lemma_pow2_step((b - 1) as nat);
        lemma_pow2_grows(a, (b - 1) as nat);
    }
}

fn power(shift: u32) -> (r: u64)
    requires
        shift <= 40,
    ensures
        r == vstd::arithmetic::power2::pow2(shift as nat),
{
    let mut r: u64 = 1;
    let mut i: u32 = 0;
    proof {
        vstd::arithmetic::power2::lemma2_to64();
        vstd::arithmetic::power2::lemma2_to64_rest();
    }
    while i < shift
        invariant
            i <= shift <= 40,
            r == vstd::arithmetic::power2::pow2(i as nat),
        decreases shift - i,
    {
        proof {
            lemma_pow2_step(i as nat);
            lemma_pow2_grows(i as nat, 40);
            vstd::arithmetic::power2::lemma2_to64();
        vstd::arithmetic::power2::lemma2_to64_rest();
        }
        r = r * 2;
        i = i + 1;
    }
    r
}

fn in_hundredths(value: Single) -> (r: u64)
    requires
        value.magnitude() <= 0x4080_0000,
    ensures
        r == hundredths(value),
{
    let magnitude: u32 = value.abs().bits;
    let exponent: u32 = magnitude / 0x80_0000;
    let n: u64 = if exponent == 0 {
        100 * magnitude as u64
    } else {
        100 * (0x80_0000 + magnitude as u64 % 0x80_0000)
    };
    let places: u32 = if exponent == 0 {
        149
    } else {
        150 - exponent
    };
    assert(n == 100 * significand(value.magnitude()));
    assert(places == binary_places(value.magnitude()));
    assert(n < 0x1_0000_0000);
    if places > 40 {
        proof {
            lemma_pow2_grows(40, places as nat);
            vstd::arithmetic::power2::lemma2_to64();
        vstd::arithmetic::power2::lemma2_to64_rest();
            let whole = vstd::arithmetic::power2::pow2(places as nat) as int;
            assert(n as int / whole == 0) by {
                vstd::arithmetic::div_mod::lemma_basic_div(n as int, whole);
            }
            assert(n as int % whole == n as int) by {
                vstd::arithmetic::div_mod::lemma_small_mod(n as nat, whole as nat);
            }
        }
        return 0;
    }
    let whole: u64 = power(places);
    proof {
        lemma_pow2_step(places as nat);
        lemma_pow2_grows(places as nat, 40);
        vstd::arithmetic::power2::lemma2_to64();
        vstd::arithmetic::power2::lemma2_to64_rest();
    }
    let q: u64 = n / whole;
    let rest: u64 = n % whole;
    if 2 * rest > whole || (2 * rest == whole && q % 2 == 1) {
        q + 1
    } else {
        q
    }
}

/// Append a value from zero to four with two decimals.
pub fn push_hundredths(out: &mut String, value: Single)
    requires
        value.magnitude() <= 0x4080_0000,
    ensures
        final(out)@ == old(out)@ + shown_hundredths(value),
{
    if value.bits >= SIGN {
        out.append("-");
    }
    push_two_decimals(out, in_hundredths(value));
    assert(out@ =~= old(out)@ + shown_hundredths(value));
}

// ---------------------------------------------------------------------------------------------
// Laws
// ---------------------------------------------------------------------------------------------

/// A clamped value lies in its range, unless it is no number.
pub proof fn a_clamped_value_lies_in_its_range(value: Single, low: Single, high: Single)
    requires
        low.le(high),
        !value.nan(),
    ensures
        low.le(value.clamped(low, high)) && value.clamped(low, high).le(high),
{
}

/// Clamping twice is clamping once.
pub proof fn clamping_twice_is_clamping_once(value: Single, low: Single, high: Single)
    requires
        low.le(high),
    ensures
        value.clamped(low, high).clamped(low, high) == value.clamped(low, high),
{
}

/// A value inside the range is not touched.
pub proof fn clamping_keeps_what_lies_in_range(value: Single, low: Single, high: Single)
    requires
        low.le(value) && value.le(high),
    ensures
        value.clamped(low, high) == value,
{
}

/// What lies outside a range goes to the end it lies beyond, and what is no number stays.
pub proof fn clamping_goes_to_the_nearer_end(value: Single, low: Single, high: Single)
    requires
        low.le(high),
    ensures
        value.lt(low) ==> value.clamped(low, high) == low,
        high.lt(value) ==> value.clamped(low, high) == high,
        value.nan() ==> value.clamped(low, high) == value,
{
}

/// Of two numbers without a sign the one with the larger bits is the larger, with a sign it is the
/// smaller, and a negative number lies below every positive one.
pub proof fn bits_are_in_the_order_of_the_numbers(a: Single, b: Single)
    requires
        !a.nan(),
        !b.nan(),
    ensures
        a.bits < SIGN && b.bits < SIGN ==> (a.lt(b) <==> a.bits < b.bits),
        a.bits >= SIGN && b.bits >= SIGN ==> (a.lt(b) <==> b.bits < a.bits),
        a.bits > SIGN && b.bits < SIGN ==> a.lt(b) && !b.lt(a),
        a.bits == SIGN && b.bits == 0 ==> !a.lt(b) && !b.lt(a),
        a.le(b) <==> !b.lt(a),
{
}

/// A pattern is no number exactly where it lies beyond infinity on its side of zero.
pub proof fn numbers_end_at_infinity(a: Single)
    ensures
        a.nan() <==> 0x7f80_0000 < a.bits < 0x8000_0000 || 0xff80_0000 < a.bits,
{
}

/// What is no number is neither below nor above anything.
pub proof fn no_number_is_ordered(a: Single, b: Single)
    requires
        a.nan(),
    ensures
        !a.lt(b) && !b.lt(a) && !a.le(b) && !b.le(a),
{
}

/// Dropping the sign keeps the distance from zero, and the result has none.
pub proof fn an_absolute_value_has_no_sign(value: Single)
    ensures
        value.unsigned().bits < SIGN,
        value.bits < SIGN ==> value.unsigned() == value,
        value.bits >= SIGN ==> value.unsigned().bits == value.bits - SIGN,
{
}

/// The larger of two numbers is one of them, and neither lies above it.
pub proof fn the_larger_is_not_below_either(a: Single, b: Single)
    requires
        !a.nan(),
        !b.nan(),
    ensures
        a.larger(b) == a || a.larger(b) == b,
        a.le(a.larger(b)),
        b.le(a.larger(b)),
{
}

/// Beside what is no number, the other one is the larger.
pub proof fn a_number_outranks_what_is_none(a: Single, b: Single)
    requires
        a.nan(),
    ensures
        a.larger(b) == b,
        !b.nan() ==> b.larger(a) == b,
{
}

} // verus!
