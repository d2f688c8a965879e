//! Fixed-point units and decimal rounding.

use vstd::prelude::*;

verus! {

/// One whole, in the millionths in which saturation, value and factors are held.
pub const UNIT: u32 = 1_000_000;

/// One degree of hue, in the millionths of a degree in which hue is held.
pub const DEGREE: i64 = 1_000_000;

/// A full turn of hue.
pub const FULL_TURN: i64 = 360_000_000;

/// One sixth of a full turn: the width of a hue segment.
pub const SEXTANT: i64 = 60_000_000;

/// Number of decimal places that a fixed-point quantity carries.
pub const PLACES: u8 = 6;

/// Ten to the power `n`.
pub open spec fn pow10(n: nat) -> nat
    decreases n,
{
    if n == 0 {
        1
    } else {
        10 * pow10((n - 1) as nat)
    }
}

/// The whole number nearest to `value / quantum`, halves going away from zero.
pub open spec fn round_half_away(value: int, quantum: int) -> int
    recommends
        quantum > 0,
{
    if value >= 0 {
        (2 * value + quantum) / (2 * quantum)
    } else {
        -((2 * (-value) + quantum) / (2 * quantum))
    }
}

/// `value`, a quantity in millionths, rounded to `decimals` decimal places.
pub open spec fn rounded(decimals: u8, value: int) -> int {
    if decimals >= PLACES {
        value
    } else {
        round_half_away(value, pow10((PLACES - decimals) as nat) as int) * pow10(
            (PLACES - decimals) as nat,
        )
    }
}

/// `a / b` with the quotient cut towards zero.
pub open spec fn trunc_div(a: int, b: int) -> int
    recommends
        b > 0,
{
    if a >= 0 {
        a / b
    } else {
        -((-a) / b)
    }
}

pub proof fn lemma_pow10_values()
    ensures
        pow10(0) == 1,
        pow10(1) == 10,
        pow10(2) == 100,
        pow10(3) == 1_000,
        pow10(4) == 10_000,
        pow10(5) == 100_000,
        pow10(6) == 1_000_000,
{
    reveal_with_fuel(pow10, 7);
}

/// Rounding moves a value by at most half a quantum.
pub proof fn lemma_round_half_away_near(value: int, quantum: int)
    requires
        quantum > 0,
    ensures
        2 * value - quantum <= 2 * quantum * round_half_away(value, quantum) <= 2 * value
            + quantum,
{
    let m: int = if value >= 0 { value } else { -value };
    let q: int = (2 * m + quantum) / (2 * quantum);
    assert(2 * quantum * q <= 2 * m + quantum < 2 * quantum * q + 2 * quantum) by {
        vstd::arithmetic::div_mod::lemma_fundamental_div_mod(2 * m + quantum, 2 * quantum);
        vstd::arithmetic::div_mod::lemma_mod_bound(2 * m + quantum, 2 * quantum);
    }
    if value < 0 {
        assert(2 * quantum * (-q) == -(2 * quantum * q)) by (nonlinear_arith);
    }
}

/// Ten to the power `n`, for `n` up to the number of places carried.
pub fn power_of_ten(n: u8) -> (r: u32)
    requires
        n <= PLACES,
    ensures
        r == pow10(n as nat),
        1 <= r <= UNIT,
{
    proof {
        lemma_pow10_values();
    }
    if n == 0 {
        1
    } else if n == 1 {
        10
    } else if n == 2 {
        100
    } else if n == 3 {
        1_000
    } else if n == 4 {
        10_000
    } else if n == 5 {
        100_000
    } else {
        1_000_000
    }
}

/// How many whole quanta `value` comes to, halves going away from zero.
pub fn round_to_count(value: i64, quantum: u32) -> (r: i64)
    requires
        quantum > 0,
    ensures
        r == round_half_away(value as int, quantum as int),
{
    let q: i128 = quantum as i128;
    let v: i128 = value as i128;
    let m: i128 = if v >= 0 { v } else { -v };
    let n: i128 = (2 * m + q) / (2 * q);
    proof {
        lemma_round_half_away_near(m as int, q as int);
        assert(0 <= n <= m) by (nonlinear_arith)
            requires
                2 * q * n <= 2 * m + q,
                2 * m - q <= 2 * q * n,
                q >= 1,
                m >= 0,
        ;
    }
    if v >= 0 {
        n as i64
    } else {
        (-n) as i64
    }
}

/// Rounds `value`, a quantity in millionths, to `decimals` decimal places,
/// halves going away from zero. The result is again in millionths.
pub fn round_float(decimals: u8, value: i64) -> (r: i64)
    requires
        i64::MIN + UNIT <= value <= i64::MAX - UNIT,
    ensures
        r == rounded(decimals, value as int),
{
    if decimals >= PLACES {
        return value;
    }
    let quantum: u32 = power_of_ten(PLACES - decimals);
    let count: i64 = round_to_count(value, quantum);
    proof {
        lemma_round_half_away_near(value as int, quantum as int);
    }
    assert(2 * quantum * count == 2 * (count * quantum)) by (nonlinear_arith);
    let wide: i128 = count as i128 * quantum as i128;
    wide as i64
}

} // verus!
