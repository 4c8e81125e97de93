//! Shared fixed-point arithmetic: scaling constants, truncating and rounding
//! division, an integer square root, and the unit-to-step quantizer
//! [`CummulativeSteps`].

use vstd::prelude::*;

verus! {

/// Number of micro-units in one unit.  Speeds are expressed in micro-steps
/// per second, ratios in micro-steps per unit, and so on.
pub const MICRO: u64 = 1_000_000;

/// Half of [`MICRO`]; the threshold used when rounding micro quantities to
/// whole units (half away from zero).
pub const HALF_MICRO: u64 = 500_000;

/// Division that truncates toward zero, the rounding mode of Rust's integer
/// `/` operator on signed operands.
pub open spec fn div_trunc(a: int, b: int) -> int
    recommends
        b > 0,
{
    if a >= 0 {
        a / b
    } else {
        -((-a) / b)
    }
}

/// A quantity in micro-units rounded to whole units, half away from zero.
pub open spec fn round_micro(x: int) -> int {
    if x >= 0 {
        (x + HALF_MICRO) / (MICRO as int)
    } else {
        -((-x + HALF_MICRO) / (MICRO as int))
    }
}

/// `r` is the floor of the square root of `n`.
pub open spec fn is_floor_sqrt(n: int, r: int) -> bool {
    0 <= r && r * r <= n && n < (r + 1) * (r + 1)
}

/// Floor of the square root of `n`, by bisection.
pub fn isqrt(n: u128) -> (r: u64)
    ensures
        is_floor_sqrt(n as int, r as int),
{
    let mut lo: u128 = 0;
    let mut hi: u128 = 0x1_0000_0000_0000_0000u128;
    while lo + 1 < hi
        invariant
            lo < hi <= 0x1_0000_0000_0000_0000u128,
            (lo as int) * (lo as int) <= n as int,
            (hi as int) * (hi as int) > n as int,
        decreases hi - lo,
    {
        let mid: u128 = lo + (hi - lo) / 2;
        proof {
            assert((mid as int) * (mid as int) <= 0xffff_ffff_ffff_ffffu128 as int
                * 0xffff_ffff_ffff_ffffu128 as int) by (nonlinear_arith)
                requires
                    0 <= mid as int <= 0xffff_ffff_ffff_ffffu128 as int,
            ;
        }
        if mid * mid <= n {
            lo = mid;
        } else {
            hi = mid;
        }
    }
    lo as u64
}

/// A number has only one floor square root, so a contract phrased through
/// [`is_floor_sqrt`] pins the value it speaks of.
pub proof fn lemma_floor_sqrt_unique(n: int, a: int, b: int)
    requires
        is_floor_sqrt(n, a),
        is_floor_sqrt(n, b),
    ensures
        a == b,
{
    assert(a == b) by (nonlinear_arith)
        requires
            0 <= a && a * a <= n && n < (a + 1) * (a + 1),
            0 <= b && b * b <= n && n < (b + 1) * (b + 1),
    ;
}

/// The change that one relative movement of `delta` micro-units contributes
/// to the accumulated micro-step total, at `steps_per_unit` micro-steps per
/// unit.
pub open spec fn quant_increment(delta: int, steps_per_unit: int) -> int {
    div_trunc(delta * steps_per_unit, MICRO as int)
}

/// Mathematical model of a [`CummulativeSteps`] quantizer.
pub ghost struct CummulativeStepsModel {
    /// Micro-steps per physical unit.
    pub steps_per_unit: int,
    /// Accumulated travel in micro-steps.
    pub steps: int,
}

/// Converts movements expressed in physical units (for example millimetres)
/// into whole steps, carrying the fractional remainder forward so that a long
/// run of small movements never drifts from the rounded running total.
///
/// The ratio and the accumulated total are fixed-point values scaled by
/// [`MICRO`].
#[derive(Debug, Clone, PartialEq, Eq, Structural)]
pub struct CummulativeSteps {
    steps_per_unit: i64,
    steps: i64,
}

impl View for CummulativeSteps {
    type V = CummulativeStepsModel;

    closed spec fn view(&self) -> CummulativeStepsModel {
        CummulativeStepsModel {
            steps_per_unit: self.steps_per_unit as int,
            steps: self.steps as int,
        }
    }
}

impl CummulativeSteps {
    /// A fresh quantizer with the given ratio of micro-steps per unit and an
    /// empty accumulator.
    pub fn new(steps_per_unit: i64) -> (r: CummulativeSteps)
        ensures
            r@.steps_per_unit == steps_per_unit as int,
            r@.steps == 0,
    {
        CummulativeSteps { steps_per_unit, steps: 0 }
    }

    /// The accumulated travel so far, in micro-steps.
    pub fn real_location(&self) -> (r: i64)
        ensures
            r as int == self@.steps,
    {
        self.steps
    }

    /// The ratio of micro-steps per physical unit.
    pub fn steps_per_unit(&self) -> (r: i64)
        ensures
            r as int == self@.steps_per_unit,
    {
        self.steps_per_unit
    }

    /// The same accumulated position under a new ratio.
    pub fn with_steps_per_unit(&self, steps_per_unit: i64) -> (r: CummulativeSteps)
        ensures
            r@.steps_per_unit == steps_per_unit as int,
            r@.steps == self@.steps,
    {
        CummulativeSteps { steps_per_unit, steps: self.steps }
    }

    /// Execute a relative movement of `delta` micro-units and return the
    /// number of whole steps to take: the change in the rounded running
    /// total, not the rounding of this movement alone, so repeated small
    /// movements never lose more than one step's worth of error in total.
    pub fn move_by(&mut self, delta: i64) -> (r: i64)
        requires
            i64::MIN <= old(self)@.steps + quant_increment(delta as int, old(self)@.steps_per_unit)
                <= i64::MAX,
        ensures
            final(self)@.steps_per_unit == old(self)@.steps_per_unit,
            final(self)@.steps == old(self)@.steps + quant_increment(
                delta as int,
                old(self)@.steps_per_unit,
            ),
            r as int == round_micro(final(self)@.steps) - round_micro(old(self)@.steps),
    {
        let prev: i64 = self.steps;
        proof {
            lemma_i64_product_bounds(delta as int, self.steps_per_unit as int);
        }
        let prod: i128 = (delta as i128) * (self.steps_per_unit as i128);
        let prod_mag: u128 = if prod >= 0 {
            prod as u128
        } else {
            (-prod) as u128
        };
        let inc_mag: u128 = prod_mag / (MICRO as u128);
        let inc: i128 = if prod >= 0 {
            inc_mag as i128
        } else {
            -(inc_mag as i128)
        };
        proof {
            assert(inc == quant_increment(delta as int, self.steps_per_unit as int));
        }
        let total: i128 = (prev as i128) + inc;
        self.steps = total as i64;
        let r_new: i64 = round_micro_exec(self.steps);
        let r_prev: i64 = round_micro_exec(prev);
        r_new - r_prev
    }
}

/// The accumulated micro-step total after feeding each element of `deltas`,
/// in order, to a quantizer whose accumulator starts at `start`.
pub open spec fn quant_total(steps_per_unit: int, start: int, deltas: Seq<int>) -> int
    decreases deltas.len(),
{
    if deltas.len() == 0 {
        start
    } else {
        quant_total(
            steps_per_unit,
            start + quant_increment(deltas[0], steps_per_unit),
            deltas.subrange(1, deltas.len() as int),
        )
    }
}

/// The sum of the whole-step counts that [`CummulativeSteps::move_by`]
/// returns when fed each element of `deltas`, in order, starting from an
/// accumulator of `start`.
pub open spec fn quant_step_sum(steps_per_unit: int, start: int, deltas: Seq<int>) -> int
    decreases deltas.len(),
{
    if deltas.len() == 0 {
        0
    } else {
        let next = start + quant_increment(deltas[0], steps_per_unit);
        (round_micro(next) - round_micro(start)) + quant_step_sum(
            steps_per_unit,
            next,
            deltas.subrange(1, deltas.len() as int),
        )
    }
}

/// Quantization never drifts: over any sequence of relative movements, the
/// whole steps handed out add up to exactly the rounding of the accumulated
/// total, however long the sequence grows.
pub proof fn lemma_no_cumulative_drift(steps_per_unit: int, start: int, deltas: Seq<int>)
    ensures
        quant_step_sum(steps_per_unit, start, deltas) == round_micro(
            quant_total(steps_per_unit, start, deltas),
        ) - round_micro(start),
    decreases deltas.len(),
{
    if deltas.len() > 0 {
        lemma_no_cumulative_drift(
            steps_per_unit,
            start + quant_increment(deltas[0], steps_per_unit),
            deltas.subrange(1, deltas.len() as int),
        );
    }
}

/// Rounding micro-units to whole units moves the value by at most half a
/// unit, so the quantizer's rounded total stays within one step of its
/// fixed-point accumulator.
pub proof fn lemma_round_micro_error(x: int)
    ensures
        -(HALF_MICRO as int) <= round_micro(x) * (MICRO as int) - x <= HALF_MICRO as int,
{
    if x >= 0 {
        vstd::arithmetic::div_mod::lemma_fundamental_div_mod(x + HALF_MICRO, MICRO as int);
    } else {
        vstd::arithmetic::div_mod::lemma_fundamental_div_mod(-x + HALF_MICRO, MICRO as int);
    }
}

/// `0 <= a <= c` and `0 <= b <= d` bound the product `a * b` by `c * d`.
pub proof fn lemma_mul_le(a: int, b: int, c: int, d: int)
    requires
        0 <= a <= c,
        0 <= b <= d,
    ensures
        0 <= a * b <= c * d,
{
    assert(0 <= a * b <= c * d) by (nonlinear_arith)
        requires
            0 <= a <= c,
            0 <= b <= d,
    ;
}

/// A product of two positive factors is at least one.
pub proof fn lemma_mul_ge_one(a: int, b: int)
    requires
        1 <= a,
        1 <= b,
    ensures
        1 <= a * b,
{
    assert(1 <= a * b) by (nonlinear_arith)
        requires
            1 <= a,
            1 <= b,
    ;
}

/// The product of two values in `i64` range stays well inside `i128` range.
proof fn lemma_i64_product_bounds(a: int, b: int)
    requires
        i64::MIN <= a <= i64::MAX,
        i64::MIN <= b <= i64::MAX,
    ensures
        -0x4000_0000_0000_0000_0000_0000_0000_0000 <= a * b
            <= 0x4000_0000_0000_0000_0000_0000_0000_0000,
{
    assert(-0x4000_0000_0000_0000_0000_0000_0000_0000 <= a * b
        <= 0x4000_0000_0000_0000_0000_0000_0000_0000) by (nonlinear_arith)
        requires
            -0x8000_0000_0000_0000 <= a <= 0x8000_0000_0000_0000,
            -0x8000_0000_0000_0000 <= b <= 0x8000_0000_0000_0000,
    ;
}

/// `round_micro`, executably: micro-units to whole units, half away from
/// zero.
fn round_micro_exec(x: i64) -> (r: i64)
    ensures
        r as int == round_micro(x as int),
        -9_223_372_036_855i64 <= r <= 9_223_372_036_855i64,
{
    if x >= 0 {
        (((x as u64) + HALF_MICRO) / MICRO) as i64
    } else {
        let mag: u64 = (-(x as i128)) as u64;
        -(((mag + HALF_MICRO) / MICRO) as i64)
    }
}

} // verus!
