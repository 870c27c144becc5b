//! Fixed-point evaluation of the decay formula's attenuation factor
//! `0.5 ^ (elapsed / half_life)`.
//!
//! The factor is a fixed-point value in millionths (`STRENGTH_SCALE` stands
//! for a factor of one). It is exact at whole multiples of the half-life
//! (one halving per multiple) and piecewise linear in between; it never
//! exceeds one, so multiplying a strength by it never raises the strength.

use vstd::prelude::*;
use vstd::arithmetic::div_mod::{
    lemma_div_of0, lemma_div_pos_is_pos, lemma_div_by_multiple,
    lemma_mod_division_less_than_divisor, lemma_mod_multiples_basic,
    lemma_multiply_divide_le,
};
use vstd::arithmetic::mul::lemma_mul_upper_bound;
use crate::components::STRENGTH_SCALE;

verus! {

/// `STRENGTH_SCALE` halved `n` times, rounding down: the attenuation after
/// `n` whole half-lives.
pub open spec fn pow_half(n: nat) -> int
    decreases n,
{
    if n == 0 {
        STRENGTH_SCALE as int
    } else {
        pow_half((n - 1) as nat) / 2
    }
}

pub proof fn lemma_pow_half_bounds(n: nat)
    ensures
        0 <= pow_half(n) <= STRENGTH_SCALE,
    decreases n,
{
    if n > 0 {
        lemma_pow_half_bounds((n - 1) as nat);
    }
}

/// Once the halvings reach zero they stay there.
pub proof fn lemma_pow_half_zero_stays(m: nat, n: nat)
    requires
        m <= n,
        pow_half(m) == 0,
    ensures
        pow_half(n) == 0,
    decreases n - m,
{
    if m < n {
        lemma_pow_half_zero_stays(m, (n - 1) as nat);
    }
}

/// Twenty halvings of one million reach zero.
pub proof fn lemma_pow_half_20()
    ensures
        pow_half(20) == 0,
{
    reveal_with_fuel(pow_half, 21);
}

/// The attenuation factor for `elapsed` seconds at half-life `h`:
/// `pow_half` at the completed number of half-lives, interpolated linearly
/// towards the next halving by the leftover seconds.
pub open spec fn spec_half_pow(elapsed: int, h: int) -> int
    recommends
        h >= 1,
        elapsed >= 0,
{
    let q = elapsed / h;
    let r = elapsed % h;
    (pow_half(q as nat) * (h - r) + pow_half((q + 1) as nat) * r) / h
}

pub proof fn lemma_half_pow_bounds(elapsed: int, h: int)
    requires
        h >= 1,
        elapsed >= 0,
    ensures
        0 <= spec_half_pow(elapsed, h) <= STRENGTH_SCALE,
{
    let q = elapsed / h;
    let r = elapsed % h;
    lemma_div_pos_is_pos(elapsed, h);
    lemma_mod_division_less_than_divisor(elapsed, h);
    lemma_pow_half_bounds(q as nat);
    lemma_pow_half_bounds((q + 1) as nat);
    let a = pow_half(q as nat);
    let b = pow_half((q + 1) as nat);
    let numer = a * (h - r) + b * r;
    assert(0 <= numer <= 1_000_000 * h) by (nonlinear_arith)
        requires
            0 <= a <= 1_000_000,
            0 <= b <= 1_000_000,
            0 <= r < h,
            numer == a * (h - r) + b * r;
    lemma_div_pos_is_pos(numer, h);
    lemma_multiply_divide_le(numer, h, 1_000_000);
}

/// At a whole number of half-lives the factor is exactly `pow_half` there.
pub proof fn lemma_half_pow_exact(k: nat, h: int)
    requires
        h >= 1,
    ensures
        spec_half_pow(k * h, h) == pow_half(k),
{
    lemma_div_by_multiple(k as int, h);
    lemma_mod_multiples_basic(k as int, h);
    lemma_pow_half_bounds(k);
    lemma_div_by_multiple(pow_half(k), h);
    assert(pow_half(k) * (h - 0) == pow_half(k) * h);
}

/// `pow_half(n)`, computed by repeated halving.
pub fn pow_half_exec(n: u64) -> (r: u64)
    ensures
        r == pow_half(n as nat),
        r <= STRENGTH_SCALE,
{
    let mut i: u64 = 0;
    let mut a: u64 = STRENGTH_SCALE;
    proof {
        lemma_pow_half_bounds(n as nat);
    }
    while i < n && a > 0
        invariant
            i <= n,
            a == pow_half(i as nat),
            a <= STRENGTH_SCALE,
        decreases n - i,
    {
        a = a / 2;
        i = i + 1;
    }
    proof {
        if i < n {
            lemma_pow_half_zero_stays(i as nat, n as nat);
        }
    }
    a
}

/// The attenuation factor for `elapsed` seconds at half-life `half_life`,
/// in millionths.
pub fn half_pow(elapsed: u64, half_life: u64) -> (f: u64)
    requires
        half_life >= 1,
    ensures
        f == spec_half_pow(elapsed as int, half_life as int),
        f <= STRENGTH_SCALE,
{
    proof {
        lemma_half_pow_bounds(elapsed as int, half_life as int);
        lemma_mod_division_less_than_divisor(elapsed as int, half_life as int);
    }
    let q = elapsed / half_life;
    let r = elapsed % half_life;
    if q >= 20 {
        proof {
            let h = half_life as int;
            let qi = elapsed as int / h;
            let ri = elapsed as int % h;
            lemma_pow_half_20();
            lemma_pow_half_zero_stays(20, qi as nat);
            lemma_pow_half_zero_stays(20, (qi + 1) as nat);
            assert(pow_half(qi as nat) * (h - ri) == 0);
            assert(pow_half((qi + 1) as nat) * ri == 0);
            lemma_div_of0(h);
        }
        0
    } else {
        let a = pow_half_exec(q);
        let b = pow_half_exec(q + 1);
        proof {
            lemma_mul_upper_bound(a as int, 1_000_000, (half_life - r) as int, u64::MAX as int);
            lemma_mul_upper_bound(b as int, 1_000_000, r as int, u64::MAX as int);
        }
        let numer: u128 = (a as u128) * ((half_life - r) as u128) + (b as u128) * (r as u128);
        let wide_f: u128 = numer / (half_life as u128);
        proof {
            let h = half_life as int;
            assert(numer == pow_half(q as nat) * (h - r) + pow_half((q + 1) as nat) * r);
            assert(wide_f == spec_half_pow(elapsed as int, h));
        }
        wide_f as u64
    }
}

} // verus!
