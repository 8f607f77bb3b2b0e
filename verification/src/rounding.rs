//! Double-precision rounding, carried out on integers.
//!
//! The heal formula is defined over double-precision numbers, and its result
//! is compared for exact equality with what the game shows. Here a number is
//! held as a whole count of units of 2^-62, and each operation of the formula
//! is followed by the rounding that double precision applies: to 53
//! significant bits, to nearest, ties to even. The model is exact for every
//! value that is zero or at least 2^-9, which covers the formula.

use vstd::prelude::*;

verus! {

/// The number one, in units of 2^-62.
pub const ONE: u128 = 0x4000_0000_0000_0000;

/// 2^100: the largest numerator that [`round_quotient`] takes is below it.
pub const NUMERATOR_END: u128 = 0x10_0000_0000_0000_0000_0000_0000;

/// The largest denominator that [`round_quotient`] takes.
pub const DENOMINATOR_MAX: u128 = 1024;

/// The quotient `n / d` rounded to the nearest whole number, ties to even.
pub open spec fn round_half_even(n: nat, d: nat) -> nat {
    let q = n / d;
    let r = n % d;
    if 2 * r < d || (2 * r == d && q % 2 == 0) {
        q
    } else {
        q + 1
    }
}

/// The least of `g`, `2g`, `4g`, ... that, taken 2^53 times, exceeds `q`
/// (a double-precision significand is below 2^53 = 0x20_0000_0000_0000).
/// From `g = 1` this is the distance between neighbouring double-precision
/// numbers around `q`.
pub open spec fn spacing(q: nat, g: nat) -> nat
    decreases (if q >= g * 0x20_0000_0000_0000 { q - g * 0x20_0000_0000_0000 + 1 } else { 0 }),
{
    if g == 0 || q < g * 0x20_0000_0000_0000 {
        g
    } else {
        spacing(q, 2 * g)
    }
}

/// The double-precision number nearest to `n / d`, ties to even.
pub open spec fn round_to_grid(n: nat, d: nat) -> nat {
    let g = spacing(n / d, 1);
    round_half_even(n, d * g) * g
}

/// The spacing is a multiple found by doubling, and past the first it is at
/// most `q / 2^52`.
pub proof fn lemma_spacing(q: nat, g: nat)
    requires
        g >= 1,
    ensures
        spacing(q, g) >= g,
        spacing(q, g) == g || spacing(q, g) * 0x10_0000_0000_0000 <= q,
        q < spacing(q, g) * 0x20_0000_0000_0000,
    decreases (if q >= g * 0x20_0000_0000_0000 { q - g * 0x20_0000_0000_0000 + 1 } else { 0 }),
{
    if q >= g * 0x20_0000_0000_0000 {
        lemma_spacing(q, 2 * g);
    }
}

/// Rounding moves a quotient by less than one spacing: the result lies
/// within `1 + (n / d) / 2^52` of `n / d`.
pub proof fn lemma_round_to_grid_near(n: nat, d: nat)
    requires
        d > 0,
    ensures
        round_to_grid(n, d) <= n / d + 1 + (n / d) / 0x10_0000_0000_0000,
        round_to_grid(n, d) + 1 + (n / d) / 0x10_0000_0000_0000 >= n / d,
{
    let q = n / d;
    let g = spacing(q, 1);
    lemma_spacing(q, 1);
    let m = n / (d * g);
    let up = round_half_even(n, d * g);
    assert(d * g > 0) by (nonlinear_arith)
        requires
            d > 0,
            g >= 1,
    ;
    assert(m <= up <= m + 1);
    assert(g <= 1 + q / 0x10_0000_0000_0000);
    lemma_quotient_of_quotient(n, d, g);
    assert(m * g <= q && q < m * g + g) by (nonlinear_arith)
        requires
            m == q / g,
            g > 0,
    ;
    assert(up * g <= m * g + g && up * g >= m * g) by (nonlinear_arith)
        requires
            m <= up <= m + 1,
    ;
}

/// The rounded quotient is a nearest whole number: it lies within a half of
/// `n / d`, and where it lies a half away it is even.
pub proof fn lemma_round_half_even_nearest(n: nat, d: nat)
    requires
        d > 0,
    ensures
        2 * (round_half_even(n, d) * d - n) <= d,
        2 * (n - round_half_even(n, d) * d) <= d,
        2 * (round_half_even(n, d) * d - n) == d || 2 * (n - round_half_even(n, d) * d) == d
            ==> round_half_even(n, d) % 2 == 0,
{
    let q = n / d;
    let r = n % d;
    vstd::arithmetic::div_mod::lemma_fundamental_div_mod(n as int, d as int);
    assert(n == d * q + r);
    assert(d * q == q * d && (q + 1) * d == q * d + d) by (nonlinear_arith);
}

/// The result of rounding is a double-precision number, and a nearest one:
/// it is a whole multiple of the spacing, of no more than 2^53 spacings,
/// and lies within half a spacing of `n / d`.
pub proof fn lemma_round_to_grid_nearest(n: nat, d: nat)
    requires
        d > 0,
    ensures
        round_to_grid(n, d) == round_half_even(n, d * spacing(n / d, 1)) * spacing(n / d, 1),
        spacing(n / d, 1) >= 1,
        round_half_even(n, d * spacing(n / d, 1)) <= 0x20_0000_0000_0000,
        2 * (round_to_grid(n, d) * d - n) <= d * spacing(n / d, 1),
        2 * (n - round_to_grid(n, d) * d) <= d * spacing(n / d, 1),
{
    let q = n / d;
    let g = spacing(q, 1);
    lemma_spacing(q, 1);
    let m = round_half_even(n, d * g);
    assert(d * g > 0) by (nonlinear_arith)
        requires
            d > 0,
            g >= 1,
    ;
    lemma_round_half_even_nearest(n, d * g);
    lemma_quotient_of_quotient(n, d, g);
    assert(q / g < 0x20_0000_0000_0000) by (nonlinear_arith)
        requires
            q < g * 0x20_0000_0000_0000,
            g >= 1,
    ;
    assert(m * g * d == m * (d * g)) by (nonlinear_arith);
}

/// Dividing by a product is dividing twice.
pub proof fn lemma_quotient_of_quotient(n: nat, d: nat, g: nat)
    requires
        d > 0,
        g > 0,
    ensures
        n / (d * g) == (n / d) / g,
{
    vstd::arithmetic::div_mod::lemma_div_denominator(n as int, d as int, g as int);
}

/// The double-precision number nearest to `n / d`, ties to even.
pub fn round_quotient(n: u128, d: u128) -> (r: u128)
    requires
        0 < d <= DENOMINATOR_MAX,
        n < NUMERATOR_END,
    ensures
        r == round_to_grid(n as nat, d as nat),
        r <= n / d + 1 + (n / d) / 0x10_0000_0000_0000,
{
    let q: u128 = n / d;
    let mut g: u128 = 1;
    while q >= g * 0x20_0000_0000_0000
        invariant
            q < NUMERATOR_END,
            1 <= g <= 0x1_0000_0000_0000,
            spacing(q as nat, g as nat) == spacing(q as nat, 1),
        decreases (if q >= g * 0x20_0000_0000_0000 { q - g * 0x20_0000_0000_0000 + 1 } else { 0 }),
    {
        g = g * 2;
    }
    assert(0 < d * g <= 0x400_0000_0000_0000) by (nonlinear_arith)
        requires
            0 < d <= 1024,
            1 <= g <= 0x1_0000_0000_0000,
    ;
    let dg: u128 = d * g;
    let m: u128 = n / dg;
    let rem: u128 = n % dg;
    let up: u128 = if 2 * rem < dg || (2 * rem == dg && m % 2 == 0) {
        m
    } else {
        m + 1
    };
    proof {
        lemma_round_to_grid_near(n as nat, d as nat);
        assert(g == spacing(q as nat, 1));
        assert(up == round_half_even(n as nat, (d * g) as nat));
        assert(up * g == round_to_grid(n as nat, d as nat));
    }
    up * g
}

} // verus!
