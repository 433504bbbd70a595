//! Rounding as double-precision arithmetic and the displays do it: to the nearest, and to the even
//! neighbour in the middle.
use vstd::prelude::*;

verus! {

/// The first integer that double precision does not tell from its neighbours.
pub const EXACT: u64 = 0x20_0000_0000_0000;

/// `n / d`, rounded to the nearest integer, to the even one in the middle.
pub open spec fn rounded_even(n: int, d: int) -> int {
    let q = n / d;
    let rest = n % d;
    if 2 * rest > d || (2 * rest == d && q % 2 == 1) {
        q + 1
    } else {
        q
    }
}

/// `n / d`, rounded to the nearest integer, to the even one in the middle.
pub fn round_even(n: u128, d: u128) -> (r: u128)
    requires
        n < 0x10_0000_0000_0000_0000_0000_0000,
        0 < d < 0x10_0000_0000_0000_0000_0000_0000,
    ensures
        r == rounded_even(n as int, d as int),
        r <= n + 1,
{
    let q: u128 = n / d;
    let rest: u128 = n % d;
    proof {
        vstd::arithmetic::div_mod::lemma_div_nonincreasing(n as int, d as int);
    }
    if 2 * rest > d || (2 * rest == d && q % 2 == 1) {
        q + 1
    } else {
        q
    }
}

/// The distance of the double-precision numbers around a natural number, where it is at least one.
pub open spec fn spacing(n: nat) -> nat
    decreases n,
{
    if n < EXACT {
        1
    } else {
        2 * spacing(n / 2)
    }
}

/// The double-precision number nearest to a natural number.
pub open spec fn as_double(n: nat) -> int {
    rounded_even(n as int, spacing(n) as int) * spacing(n)
}

/// The double-precision number nearest to `n`, which is an integer.
pub fn to_double(n: u64) -> (r: u128)
    ensures
        r == as_double(n as nat),
        r <= 0x2_0000_0000_0000_0000,
{
    let mut rest: u64 = n;
    let mut unit: u64 = 1;
    while rest >= EXACT
        invariant
            spacing(n as nat) == unit * spacing(rest as nat),
            rest * unit <= n,
            unit >= 1,
            unit == 1 || rest >= 1,
        decreases rest,
    {
        let ghost before = rest;
        let ghost step = unit;
        proof {
            assert(unit <= n) by (nonlinear_arith)
                requires
                    rest * unit <= n,
                    rest >= 1,
                    unit >= 1,
            ;
            assert(2 * unit <= n) by (nonlinear_arith)
                requires
                    rest * unit <= n,
                    rest >= 2,
                    unit >= 1,
            ;
        }
        rest = rest / 2;
        unit = unit * 2;
        proof {
            assert(rest * unit <= before * step) by (nonlinear_arith)
                requires
                    rest == before / 2,
                    unit == 2 * step,
            ;
            let s = spacing(rest as nat);
            assert(step * (2 * s) == (2 * step) * s) by (nonlinear_arith);
        }
    }
    assert(spacing(n as nat) == unit) by (nonlinear_arith)
        requires
            spacing(n as nat) == unit * spacing(rest as nat),
            spacing(rest as nat) == 1,
    ;
    let q: u128 = round_even(n as u128, unit as u128);
    proof {
        let u: int = unit as int;
        let m: int = n as int;
        let w = m / u;
        vstd::arithmetic::div_mod::lemma_fundamental_div_mod(m, u);
        assert(q * u <= m + u) by (nonlinear_arith)
            requires
                q <= w + 1,
                m == u * w + m % u,
                m % u >= 0,
                u > 0,
        ;
        assert(u <= m || u == 1) by (nonlinear_arith)
            requires
                rest * unit <= n,
                u == unit,
                m == n,
                rest >= 1 || u == 1,
        ;
        assert(q * unit <= 0x2_0000_0000_0000_0000);
    }
    q * unit as u128
}

/// How often a numerator must be doubled until the quotient has all 53 digits of a double-precision
/// number in front of the point.
pub open spec fn doublings(n: nat, d: nat) -> nat
    decreases
            (if n < d * 0x10_0000_0000_0000 {
                d * 0x10_0000_0000_0000 - n
            } else {
                0
            }),
{
    if n == 0 || n >= d * 0x10_0000_0000_0000 {
        0
    } else {
        1 + doublings(2 * n, d)
    }
}

/// A quotient as double-precision arithmetic computes it, in multiples of one over `factor`, rounded
/// as a display rounds it.
pub open spec fn quotient_rounded(n: nat, d: nat, factor: nat) -> int {
    let scale = vstd::arithmetic::power2::pow2(doublings(n, d)) as int;
    rounded_even(factor * rounded_even(n * scale, d as int), scale)
}

/// The same in hundredths.
pub open spec fn quotient_hundredths(n: nat, d: nat) -> int {
    quotient_rounded(n, d, 100)
}

/// A quotient as double-precision arithmetic computes it, in hundredths, rounded.
pub fn divide_to_hundredths(n: u64, d: u32) -> (r: u64)
    requires
        n < 0x10_0000_0000_0000,
        d > 0,
    ensures
        r == quotient_hundredths(n as nat, d as nat),
{
    divide_rounded(n, d, 100)
}

/// A quotient as double-precision arithmetic computes it, in multiples of one over `factor`, rounded.
pub fn divide_rounded(n: u64, d: u32, factor: u64) -> (r: u64)
    requires
        n < 0x10_0000_0000_0000,
        d > 0,
        factor <= 1000,
    ensures
        r == quotient_rounded(n as nat, d as nat, factor as nat),
{
    let mut shifted: u128 = n as u128;
    let mut scale: u128 = 1;
    let full: u128 = d as u128 * 0x10_0000_0000_0000;
    let ghost mut k: nat = 0;
    proof {
        vstd::arithmetic::power2::lemma2_to64();
    }
    while n > 0 && shifted < full
        invariant
            full == d * 0x10_0000_0000_0000,
            0 < d <= 0xffff_ffff,
            n < 0x10_0000_0000_0000,
            scale == vstd::arithmetic::power2::pow2(k),
            shifted == n * scale,
            shifted < 2 * full,
            n > 0 ==> scale <= shifted,
            scale >= 1,
            doublings(n as nat, d as nat) == k + doublings(shifted as nat, d as nat),
        decreases
                (if shifted < full {
                    full - shifted
                } else {
                    0
                }),
    {
        proof {
            vstd::arithmetic::power2::lemma_pow2_unfold(k + 1);
            assert(n * (2 * scale) == 2 * (n * scale)) by (nonlinear_arith);
            k = k + 1;
        }
        shifted = shifted * 2;
        scale = scale * 2;
    }
    proof {
        assert(n == 0 ==> scale == 1);
    }
    let whole: u128 = round_even(shifted, d as u128);
    proof {
        let x: int = shifted as int;
        let e: int = d as int;
        vstd::arithmetic::div_mod::lemma_fundamental_div_mod(x, e);
        assert(x / e < 0x20_0000_0000_0000) by (nonlinear_arith)
            requires
                x < 2 * (e * 0x10_0000_0000_0000),
                x == e * (x / e) + x % e,
                x % e >= 0,
                e > 0,
        ;
    }
    proof {
        let w: int = whole as int;
        let f: int = factor as int;
        assert(0 <= f * w <= 1000 * 0x20_0000_0000_0000) by (nonlinear_arith)
            requires
                0 <= f <= 1000,
                0 <= w <= 0x20_0000_0000_0000,
        ;
    }
    round_even(factor as u128 * whole, scale) as u64
}

/// Rounding goes to the nearest integer, and in the middle between two to the even one.
pub proof fn rounding_to_even_is_to_the_nearest(n: int, d: int)
    requires
        d > 0,
    ensures
        -d <= 2 * (rounded_even(n, d) * d - n) <= d,
        2 * (rounded_even(n, d) * d - n) == d || 2 * (rounded_even(n, d) * d - n) == -d
            ==> rounded_even(n, d) % 2 == 0,
        n % d == 0 ==> rounded_even(n, d) * d == n,
{
    vstd::arithmetic::div_mod::lemma_fundamental_div_mod(n, d);
    vstd::arithmetic::div_mod::lemma_mod_bound(n, d);
    let q = n / d;
    assert(q * d == d * q && (q + 1) * d == d * q + d) by (nonlinear_arith);
}

/// Double precision holds every natural number below `2^53` exactly, and from there to `2^54` every
/// even one.
pub proof fn small_numbers_are_exact(n: nat)
    ensures
        n < 0x20_0000_0000_0000 ==> as_double(n) == n,
        0x20_0000_0000_0000 <= n < 0x40_0000_0000_0000 ==> spacing(n) == 2 && -1 <= as_double(n) - n
            <= 1,
{
    reveal_with_fuel(spacing, 3);
    if n < 0x20_0000_0000_0000 {
        assert(spacing(n) == 1);
    } else if n < 0x40_0000_0000_0000 {
        assert(spacing(n / 2) == 1);
        rounding_to_even_is_to_the_nearest(n as int, 2);
    }
}

/// A quotient is rounded to the nearest, up to what the binary places it was cut to leave open.
pub proof fn a_quotient_is_near_the_true_one(n: nat, d: nat, factor: nat)
    requires
        d > 0,
    ensures
        ({
            let scale = vstd::arithmetic::power2::pow2(doublings(n, d)) as int;
            let off = 2 * scale * (quotient_rounded(n, d, factor) * d - factor * n);
            -((scale + factor) * d) <= off <= (scale + factor) * d
        }),
{
    let scale = vstd::arithmetic::power2::pow2(doublings(n, d)) as int;
    vstd::arithmetic::power2::lemma_pow2_pos(doublings(n, d));
    let inner = rounded_even(n * scale, d as int);
    let outer = rounded_even(factor * inner, scale);
    rounding_to_even_is_to_the_nearest(n * scale, d as int);
    rounding_to_even_is_to_the_nearest(factor * inner, scale);
    let a = 2 * (inner * d - n * scale);
    let b = 2 * (outer * scale - factor * inner);
    assert(-(factor * d) <= factor * a <= factor * d) by (nonlinear_arith)
        requires
            -d <= a <= d,
            factor >= 0,
    ;
    assert(-(scale * d) <= b * d <= scale * d) by (nonlinear_arith)
        requires
            -scale <= b <= scale,
            d > 0,
    ;
    assert(2 * scale * (outer * d - factor * n) == b * d + factor * a) by (nonlinear_arith)
        requires
            a == 2 * (inner * d - n * scale),
            b == 2 * (outer * scale - factor * inner),
    ;
    assert((scale + factor) * d == scale * d + factor * d) by (nonlinear_arith);
}

} // verus!
