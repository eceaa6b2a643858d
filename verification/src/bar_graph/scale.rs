//! The length of a bar, computed exactly on the mantissas.

use crate::bar_graph::layout::{columns, exact_columns, round_half_away};
use crate::bar_graph::number::{magnitude, pow10, Number, MAX_MANTISSA};
use crate::bar_graph::wide::{wide_limit, Wide};
use vstd::prelude::*;

verus! {

/// `10^28`, the largest power of ten that a scale stands for.
pub open spec fn largest_power() -> int {
    10_000_000_000_000_000_000_000_000_000
}

/// `2^160`: above a mantissa times a width.
pub open spec fn product_bound() -> int {
    0x1_0000_0000_0000_0000_0000_0000_0000_0000_0000_0000int
}

/// A power of ten is positive, and up to the scale 28 it is at most `10^28`.
pub proof fn lemma_pow10_range(e: nat)
    ensures
        pow10(e) > 0,
        e <= 28 ==> pow10(e) <= largest_power(),
    decreases 28 - e,
{
    lemma_pow10_grows(e);
    if e < 28 {
        lemma_pow10_range(e + 1);
    } else if e == 28 {
        assert(pow10(28) == largest_power()) by {
            reveal_with_fuel(pow10, 29);
        }
    }
}

/// A power of ten is positive and below the next one.
pub proof fn lemma_pow10_grows(e: nat)
    ensures
        0 < pow10(e) < pow10(e + 1),
    decreases e,
{
    if e > 0 {
        lemma_pow10_grows((e - 1) as nat);
    }
}

/// The magnitudes and signs of the two numbers whose quotient is the length
/// of a bar.
pub proof fn lemma_parts(value: int, width: int, up: int, max_y: int, down: int)
    requires
        width >= 0,
        up > 0,
        down > 0,
        max_y != 0,
    ensures
        magnitude(value * width * up) == magnitude(value) * width * up,
        magnitude(max_y * down) == magnitude(max_y) * down,
        magnitude(max_y * down) > 0,
        (max_y * down < 0) == (max_y < 0),
        (value * width * up < 0) == (value < 0 && width > 0),
{
    assert((max_y * down < 0) == (max_y < 0) && (max_y > 0 ==> max_y * down > 0) && (max_y < 0
        ==> (-max_y) * down == -(max_y * down) && max_y * down < 0)) by (nonlinear_arith)
        requires
            down > 0,
            max_y != 0,
    ;
    assert(value * width * up == value * (width * up) && magnitude(value) * width * up
        == magnitude(value) * (width * up)) by (nonlinear_arith);
    let k = width * up;
    assert(k >= 0 && (width > 0 ==> k > 0) && (width == 0 ==> k == 0)) by (nonlinear_arith)
        requires
            k == width * up,
            width >= 0,
            up > 0,
    ;
    assert((value < 0 && k > 0 ==> value * k < 0) && (value >= 0 ==> value * k >= 0) && (k == 0
        ==> value * k == 0) && (-value) * k == -(value * k)) by (nonlinear_arith)
        requires
            k >= 0,
    ;
}

/// A number between two neighbouring multiples of `step` has the smaller
/// multiple's factor as its quotient.
pub proof fn lemma_quotient_between(x: int, step: int, q: int)
    requires
        step > 0,
        step * q <= x < step * (q + 1),
    ensures
        x / step == q,
{
    assert(step * (q + 1) == step * q + step) by (nonlinear_arith);
    assert(x == q * step + (x - step * q)) by (nonlinear_arith);
    vstd::arithmetic::div_mod::lemma_fundamental_div_mod_converse(x, step, q, x - step * q);
}

/// The magnitude of a mantissa.
fn magnitude_of(mantissa: i128) -> (m: u128)
    requires
        -MAX_MANTISSA <= mantissa <= MAX_MANTISSA,
    ensures
        m == magnitude(mantissa as int),
        m <= MAX_MANTISSA,
{
    if mantissa < 0 {
        (-mantissa) as u128
    } else {
        mantissa as u128
    }
}

/// `x * 10^e`.
fn times_pow10(x: Wide, e: u32) -> (r: Wide)
    requires
        e <= 28,
        x@ <= product_bound(),
    ensures
        r@ == x@ * pow10(e as nat),
{
    let mut r = x;
    let mut done: u32 = 0;
    proof {
        x.lemma_range();
        assert(x@ * pow10(0) == x@) by (nonlinear_arith)
            requires
                pow10(0) == 1,
        ;
    }
    while done < e
        invariant
            done <= e <= 28,
            0 <= x@ <= product_bound(),
            r@ == x@ * pow10(done as nat),
        decreases e - done,
    {
        proof {
            let now = pow10(done as nat);
            let next = pow10((done + 1) as nat);
            lemma_pow10_range((done + 1) as nat);
            assert(next == 10 * now);
            assert(x@ * now * 10 == x@ * next && x@ * next <= product_bound() * largest_power())
                by (nonlinear_arith)
                requires
                    next == 10 * now,
                    0 <= x@ <= product_bound(),
                    0 < next <= largest_power(),
            ;
        }
        r = r.times(10);
        done = done + 1;
    }
    r
}

/// The length of the bar for `value` where `max_y` takes `width` columns:
/// `value / max_y * width`, exactly, rounded to the nearest whole number, a
/// tie going away from zero; no column where `max_y` is zero; `None` where
/// the number of columns is negative or above 65535.
#[verifier::loop_isolation(false)]
pub fn columns_of(value: &Number, max_y: &Number, width: u64) -> (n: Option<u16>)
    ensures
        n == columns(value@, max_y@, width),
{
    let top_mantissa = value.mantissa();
    let bottom_mantissa = max_y.mantissa();
    if bottom_mantissa == 0 {
        return Some(0);
    }
    let up = max_y.scale();
    let down = value.scale();
    let a = magnitude_of(top_mantissa);
    let b = magnitude_of(bottom_mantissa);
    let ghost num = top_mantissa * width * pow10(up as nat);
    let ghost den = bottom_mantissa * pow10(down as nat);
    proof {
        lemma_pow10_range(up as nat);
        lemma_pow10_range(down as nat);
        lemma_parts(
            top_mantissa as int,
            width as int,
            pow10(up as nat),
            bottom_mantissa as int,
            pow10(down as nat),
        );
        assert(0 <= a * width < product_bound()) by (nonlinear_arith)
            requires
                0 <= a <= 0xFFFF_FFFF_FFFF_FFFF_FFFF_FFFF,
                0 <= width <= 0xFFFF_FFFF_FFFF_FFFF,
                product_bound() == 0x1_0000_0000_0000_0000_0000_0000_0000_0000_0000_0000int,
        ;
        assert(a * width * pow10(up as nat) <= product_bound() * largest_power())
            by (nonlinear_arith)
            requires
                0 <= a * width <= product_bound(),
                0 < pow10(up as nat) <= largest_power(),
        ;
        assert(b * pow10(down as nat) <= 0xFFFF_FFFF_FFFF_FFFF_FFFF_FFFF * largest_power())
            by (nonlinear_arith)
            requires
                0 <= b <= 0xFFFF_FFFF_FFFF_FFFF_FFFF_FFFF,
                0 < pow10(down as nat) <= largest_power(),
        ;
    }
    // the magnitudes of the two numbers whose quotient is wanted
    let above = times_pow10(Wide::from_u128(a).times(width), up);
    let below = times_pow10(Wide::from_u128(b), down);
    assert(above@ == magnitude(num));
    assert(below@ == magnitude(den) && below@ > 0);
    // nearest = (2 * above + below) / (2 * below)
    let sum = above.plus(&above).plus(&below);
    let ghost nearest = sum@ / (2 * below@);
    assert(exact_columns(value@, max_y@, width) == round_half_away(num, den));

    if below.times(131072).at_most(&sum) {
        proof {
            assert(nearest >= 65536) by (nonlinear_arith)
                requires
                    below@ * 131072 <= sum@,
                    below@ > 0,
                    nearest == sum@ / (2 * below@),
            ;
            assert(above@ > 0) by (nonlinear_arith)
                requires
                    below@ * 131072 <= above@ + above@ + below@,
                    below@ > 0,
            ;
        }
        return None;
    }
    let mut low: u64 = 0;
    let mut high: u64 = 65536;
    while high - low > 1
        invariant
            0 <= low < high <= 65536,
            0 < below@ <= 0xFFFF_FFFF_FFFF_FFFF_FFFF_FFFF * largest_power(),
            below@ * (2 * low) <= sum@ < below@ * (2 * high),
        decreases high - low,
    {
        let middle = low + (high - low) / 2;
        proof {
            assert(below@ * (2 * middle) <= below@ * 131072) by (nonlinear_arith)
                requires
                    0 < below@,
                    0 <= middle <= 65536,
            ;
        }
        if below.times(2 * middle).at_most(&sum) {
            low = middle;
        } else {
            high = middle;
        }
    }
    proof {
        let step = 2 * below@;
        assert(step * low == below@ * (2 * low) && step * (low + 1) == below@ * (2 * (low + 1)))
            by (nonlinear_arith)
            requires
                step == 2 * below@,
        ;
        lemma_quotient_between(sum@, step, low as int);
        assert(nearest == low);
        if low > 0 {
            assert(above@ > 0) by (nonlinear_arith)
                requires
                    below@ * (2 * low) <= above@ + above@ + below@,
                    below@ > 0,
                    low >= 1,
            ;
            assert(width > 0 && top_mantissa != 0) by (nonlinear_arith)
                requires
                    a * width * pow10(up as nat) > 0,
                    a == magnitude(top_mantissa as int),
            ;
        }
        assert(round_half_away(num, den) == if (num < 0) != (den < 0) {
            -(low as int)
        } else {
            low as int
        });
    }
    let negative = (top_mantissa < 0) != (bottom_mantissa < 0);
    if negative && low > 0 {
        None
    } else {
        Some(low as u16)
    }
}

} // verus!
