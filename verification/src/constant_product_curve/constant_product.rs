//! Conversion between a change of the share supply and the reserve amounts
//! that go with it.
//!
//! Ratios are fixed-point numbers with `precision` decimal digits. The scale,
//! every ratio and every product are held in 128 bits, and a step that does
//! not fit there is refused as an overflow. Every division rounds in the pool's favour: a depositor pays the
//! quotient rounded up, and a withdrawer is paid what is left after the pool
//! keeps its part rounded up. So neither a deposit nor a withdrawal moves
//! value from those who stay in the pool to the one who acts.

use crate::constant_product_curve::rounding::div_ceil;
use crate::constant_product_curve::rounding::div_ceil_u128;
use crate::constant_product_curve::rounding::lemma_div_ceil_bounds;
use crate::constant_product_curve::rounding::lemma_div_ceil_least;
use crate::constant_product_curve::rounding::lemma_div_ceil_sign;
use vstd::arithmetic::power::lemma_pow_adds;
use vstd::arithmetic::power::lemma_pow_increases;
use vstd::arithmetic::power::lemma_pow_positive;
use vstd::arithmetic::power::pow;
use vstd::prelude::*;

verus! {

/// An amount of asset X and an amount of asset Y.
#[derive(Debug, Clone, Copy, PartialEq, Eq)]
pub struct XYAmounts {
    pub x: u64,
    pub y: u64,
}

/// The curve itself holds no state.
pub struct ConstantProductCurve {}

/// Why the curve could not answer.
#[derive(Debug, Clone, Copy, PartialEq, Eq)]
pub enum CurveError {
    /// The scale or a product left the 128-bit range, an amount does not fit
    /// in 64 bits, the share supply to divide by is zero, or more shares are
    /// to be retired than there are.
    Overflow,
}

/// The fixed-point scale for `precision` decimal digits: ten to that power.
pub open spec fn scaling_factor(precision: u32) -> int {
    pow(10, precision as nat)
}

/// The share supply after `lp_required` more shares, relative to the supply
/// `total_lp` before, as a fixed-point number rounded up.
pub open spec fn growth_ratio(total_lp: int, lp_required: int, scale: int) -> int {
    div_ceil((total_lp + lp_required) * scale, total_lp)
}

/// What must be added to a reserve of `total` so that it grows by `ratio`,
/// rounded up.
pub open spec fn amount_to_give(total: int, ratio: int, scale: int) -> int {
    div_ceil(total * ratio, scale) - total
}

/// The share supply after `lp_give` shares are retired, relative to the supply
/// `total_lp` before, as a fixed-point number rounded up.
pub open spec fn retained_ratio(total_lp: int, lp_give: int, scale: int) -> int {
    div_ceil((total_lp - lp_give) * scale, total_lp)
}

/// What leaves a reserve of `total` when the pool keeps the part `ratio` of
/// it, the kept part rounded up.
pub open spec fn amount_to_take(total: int, ratio: int, scale: int) -> int {
    total - div_ceil(total * ratio, scale)
}

/// Every step of `ConstantProductCurve::give_lp_take_xy` stays in its range:
/// there are shares to divide by, the scale and the three products fit in
/// 128 bits, and both amounts fit in 64 bits.
pub open spec fn give_fits(
    total_x: u64,
    total_y: u64,
    total_lp: u64,
    lp_required: u64,
    precision: u32,
) -> bool {
    let scale = scaling_factor(precision);
    let ratio = growth_ratio(total_lp as int, lp_required as int, scale);
    &&& scale <= u128::MAX
    &&& total_lp > 0
    &&& (total_lp + lp_required) * scale <= u128::MAX
    &&& total_x * ratio <= u128::MAX
    &&& total_y * ratio <= u128::MAX
    &&& amount_to_give(total_x as int, ratio, scale) <= u64::MAX
    &&& amount_to_give(total_y as int, ratio, scale) <= u64::MAX
}

/// What `ConstantProductCurve::give_lp_take_xy` returns.
pub open spec fn spec_give_lp_take_xy(
    total_x: u64,
    total_y: u64,
    total_lp: u64,
    lp_required: u64,
    precision: u32,
) -> Result<XYAmounts, CurveError> {
    let scale = scaling_factor(precision);
    let ratio = growth_ratio(total_lp as int, lp_required as int, scale);
    if give_fits(total_x, total_y, total_lp, lp_required, precision) {
        Ok(
            XYAmounts {
                x: amount_to_give(total_x as int, ratio, scale) as u64,
                y: amount_to_give(total_y as int, ratio, scale) as u64,
            },
        )
    } else {
        Err(CurveError::Overflow)
    }
}

/// Every step of `ConstantProductCurve::take_lp_give_xy` stays in its range:
/// there are shares to divide by and no more are retired than there are, and
/// the scale and the three products fit in 128 bits.
pub open spec fn take_fits(
    total_x: u64,
    total_y: u64,
    total_lp: u64,
    lp_give: u64,
    precision: u32,
) -> bool {
    let scale = scaling_factor(precision);
    let ratio = retained_ratio(total_lp as int, lp_give as int, scale);
    &&& scale <= u128::MAX
    &&& 0 < total_lp
    &&& lp_give <= total_lp
    &&& (total_lp - lp_give) * scale <= u128::MAX
    &&& total_x * ratio <= u128::MAX
    &&& total_y * ratio <= u128::MAX
}

/// What `ConstantProductCurve::take_lp_give_xy` returns.
pub open spec fn spec_take_lp_give_xy(
    total_x: u64,
    total_y: u64,
    total_lp: u64,
    lp_give: u64,
    precision: u32,
) -> Result<XYAmounts, CurveError> {
    let scale = scaling_factor(precision);
    let ratio = retained_ratio(total_lp as int, lp_give as int, scale);
    if take_fits(total_x, total_y, total_lp, lp_give, precision) {
        Ok(
            XYAmounts {
                x: amount_to_take(total_x as int, ratio, scale) as u64,
                y: amount_to_take(total_y as int, ratio, scale) as u64,
            },
        )
    } else {
        Err(CurveError::Overflow)
    }
}

/// The scale is positive, it grows with the precision, and it fits in 128
/// bits exactly up to 38 digits.
pub proof fn lemma_scaling_factor_range(precision: u32)
    ensures
        scaling_factor(precision) >= 1,
        precision <= 38 <==> scaling_factor(precision) <= u128::MAX,
        precision <= 19 ==> scaling_factor(precision) * u64::MAX <= u128::MAX,
{
    lemma_pow_positive(10, precision as nat);
    lemma_power_of_ten_values();
    if precision <= 19 {
        lemma_pow_increases(10, precision as nat, 19);
        let scale = scaling_factor(precision);
        assert(scale * u64::MAX <= u128::MAX) by (nonlinear_arith)
            requires
                0 <= scale <= 10_000_000_000_000_000_000,
        ;
    }
    if precision <= 38 {
        lemma_pow_increases(10, precision as nat, 38);
    } else {
        lemma_pow_increases(10, 39, precision as nat);
    }
}

/// Ten to the powers at which the scale meets the limits of the arithmetic.
proof fn lemma_power_of_ten_values()
    ensures
        pow(10, 19) == 10_000_000_000_000_000_000,
        pow(10, 38) == 100_000_000_000_000_000_000_000_000_000_000_000_000,
        pow(10, 39) == 1_000_000_000_000_000_000_000_000_000_000_000_000_000,
{
    reveal_with_fuel(pow, 20);
    assert(pow(10, 19) == 10_000_000_000_000_000_000);
    lemma_pow_adds(10, 19, 19);
    assert(pow(10, 38) == 10_000_000_000_000_000_000 * 10_000_000_000_000_000_000);
    lemma_pow_adds(10, 38, 1);
    assert(pow(10, 1) == 10);
}

/// Ten to the power of `precision`, or `None` where that leaves 128 bits.
pub fn checked_scaling_factor(precision: u32) -> (res: Option<u128>)
    ensures
        res == (if scaling_factor(precision) <= u128::MAX {
            Some(scaling_factor(precision) as u128)
        } else {
            None
        }),
{
    let mut scale: u128 = 1;
    let mut done: u32 = 0;
    assert(pow(10, 0) == 1) by {
        reveal_with_fuel(pow, 1);
    }
    while done < precision
        invariant
            done <= precision,
            scale == pow(10, done as nat),
        decreases precision - done,
    {
        proof {
            reveal_with_fuel(pow, 2);
            assert(pow(10, (done + 1) as nat) == 10 * pow(10, done as nat));
            lemma_pow_increases(10, (done + 1) as nat, precision as nat);
        }
        match scale.checked_mul(10) {
            Some(next) => {
                scale = next;
            },
            None => {
                return None;
            },
        }
        done = done + 1;
    }
    Some(scale)
}

/// The amount to add to a reserve of `total` for it to grow by `ratio`, or
/// `None` where the product leaves 128 bits or the amount leaves 64 bits.
fn give_amount(total: u64, ratio: u128, scale: u128) -> (res: Option<u64>)
    requires
        0 < scale <= ratio,
    ensures
        res == (if total * ratio > u128::MAX || amount_to_give(total as int, ratio as int, scale as int)
            > u64::MAX {
            None
        } else {
            Some(amount_to_give(total as int, ratio as int, scale as int) as u64)
        }),
        amount_to_give(total as int, ratio as int, scale as int) >= 0,
{
    proof {
        let grown = div_ceil(total * ratio, scale as int);
        lemma_div_ceil_bounds(total * ratio, scale as int);
        assert(grown >= total) by (nonlinear_arith)
            requires
                grown * scale >= total * ratio,
                0 < scale <= ratio,
                total >= 0,
        ;
    }
    match (total as u128).checked_mul(ratio) {
        None => None,
        Some(product) => {
            let grown: u128 = div_ceil_u128(product, scale);
            let amount: u128 = grown - total as u128;
            if amount > u64::MAX as u128 {
                None
            } else {
                Some(amount as u64)
            }
        },
    }
}

/// The amount that leaves a reserve of `total` when the pool keeps the part
/// `ratio` of it, or `None` where the product leaves 128 bits.
fn take_amount(total: u64, ratio: u128, scale: u128) -> (res: Option<u64>)
    requires
        0 < scale,
        ratio <= scale,
    ensures
        res == (if total * ratio > u128::MAX {
            None
        } else {
            Some(amount_to_take(total as int, ratio as int, scale as int) as u64)
        }),
        0 <= amount_to_take(total as int, ratio as int, scale as int) <= total,
{
    proof {
        assert(0 <= total * ratio <= total * scale) by (nonlinear_arith)
            requires
                0 <= ratio <= scale,
                0 <= total,
        ;
        lemma_div_ceil_least(total * ratio, scale as int, total as int);
        lemma_div_ceil_sign(total * ratio, scale as int);
    }
    match (total as u128).checked_mul(ratio) {
        None => None,
        Some(product) => {
            let kept: u128 = div_ceil_u128(product, scale);
            Some((total as u128 - kept) as u64)
        },
    }
}

impl ConstantProductCurve {
    /// The amounts of X and Y that a depositor gives for `lp_required` new
    /// shares, so that both reserves grow as the share supply does. Each
    /// amount is rounded up.
    ///
    /// Fails with `Overflow` where `total_lp` is zero, where ten to the power
    /// of `precision` or a product leaves 128 bits, or where an amount leaves
    /// 64 bits, and nowhere else.
    pub fn give_lp_take_xy(
        total_x: u64,
        total_y: u64,
        total_lp: u64,
        lp_required: u64,
        precision: u32,
    ) -> (res: Result<XYAmounts, CurveError>)
        ensures
            res == spec_give_lp_take_xy(total_x, total_y, total_lp, lp_required, precision),
            res is Ok <==> give_fits(total_x, total_y, total_lp, lp_required, precision),
            res matches Ok(given) ==> ({
                let scale = scaling_factor(precision);
                let ratio = growth_ratio(total_lp as int, lp_required as int, scale);
                &&& given.x == amount_to_give(total_x as int, ratio, scale)
                &&& given.y == amount_to_give(total_y as int, ratio, scale)
            }),
    {
        proof {
            lemma_scaling_factor_range(precision);
        }
        let scale: u128 = match checked_scaling_factor(precision) {
            Some(scale) => scale,
            None => {
                return Err(CurveError::Overflow);
            },
        };
        if total_lp == 0 {
            return Err(CurveError::Overflow);
        }
        let grown_lp: u128 = total_lp as u128 + lp_required as u128;
        assert(grown_lp * scale == (total_lp + lp_required) * scaling_factor(precision))
            by (nonlinear_arith)
            requires
                grown_lp == total_lp + lp_required,
                scale == scaling_factor(precision),
        ;
        let scaled_lp: u128 = match grown_lp.checked_mul(scale) {
            Some(scaled_lp) => scaled_lp,
            None => {
                return Err(CurveError::Overflow);
            },
        };
        proof {
            assert(grown_lp * scale >= total_lp * scale) by (nonlinear_arith)
                requires
                    total_lp <= grown_lp,
                    0 < scale,
            ;
            lemma_div_ceil_bounds(grown_lp * scale, total_lp as int);
            let ratio = div_ceil(grown_lp * scale, total_lp as int);
            assert(ratio >= scale) by (nonlinear_arith)
                requires
                    ratio * total_lp >= grown_lp * scale,
                    grown_lp * scale >= total_lp * scale,
                    total_lp > 0,
            ;
        }
        let ratio: u128 = div_ceil_u128(scaled_lp, total_lp as u128);
        let x: u64 = match give_amount(total_x, ratio, scale) {
            Some(x) => x,
            None => {
                return Err(CurveError::Overflow);
            },
        };
        let y: u64 = match give_amount(total_y, ratio, scale) {
            Some(y) => y,
            None => {
                return Err(CurveError::Overflow);
            },
        };
        Ok(XYAmounts { x, y })
    }

    /// The amounts of X and Y that are paid out for `lp_give` retired shares.
    /// The pool keeps of each reserve the part that the remaining shares stand
    /// for, rounded up, and pays out the rest.
    ///
    /// Fails with `Overflow` where `total_lp` is zero or less than `lp_give`,
    /// or where ten to the power of `precision` or a product leaves 128 bits,
    /// and nowhere else.
    pub fn take_lp_give_xy(
        total_x: u64,
        total_y: u64,
        total_lp: u64,
        lp_give: u64,
        precision: u32,
    ) -> (res: Result<XYAmounts, CurveError>)
        ensures
            res == spec_take_lp_give_xy(total_x, total_y, total_lp, lp_give, precision),
            res is Ok <==> take_fits(total_x, total_y, total_lp, lp_give, precision),
            res matches Ok(taken) ==> ({
                let scale = scaling_factor(precision);
                let ratio = retained_ratio(total_lp as int, lp_give as int, scale);
                &&& taken.x == amount_to_take(total_x as int, ratio, scale)
                &&& taken.y == amount_to_take(total_y as int, ratio, scale)
                &&& taken.x <= total_x
                &&& taken.y <= total_y
            }),
    {
        proof {
            lemma_scaling_factor_range(precision);
        }
        let scale: u128 = match checked_scaling_factor(precision) {
            Some(scale) => scale,
            None => {
                return Err(CurveError::Overflow);
            },
        };
        if total_lp == 0 || lp_give > total_lp {
            return Err(CurveError::Overflow);
        }
        let left_lp: u128 = (total_lp - lp_give) as u128;
        assert(left_lp * scale == (total_lp - lp_give) * scaling_factor(precision))
            by (nonlinear_arith)
            requires
                left_lp == total_lp - lp_give,
                scale == scaling_factor(precision),
        ;
        let scaled_lp: u128 = match left_lp.checked_mul(scale) {
            Some(scaled_lp) => scaled_lp,
            None => {
                return Err(CurveError::Overflow);
            },
        };
        proof {
            assert(0 <= left_lp * scale <= total_lp * scale && scale * total_lp == total_lp
                * scale) by (nonlinear_arith)
                requires
                    0 <= left_lp <= total_lp,
                    0 < scale,
            ;
            lemma_div_ceil_least(left_lp * scale, total_lp as int, scale as int);
            lemma_div_ceil_sign(left_lp * scale, total_lp as int);
        }
        let ratio: u128 = div_ceil_u128(scaled_lp, total_lp as u128);
        let x: u64 = match take_amount(total_x, ratio, scale) {
            Some(x) => x,
            None => {
                return Err(CurveError::Overflow);
            },
        };
        let y: u64 = match take_amount(total_y, ratio, scale) {
            Some(y) => y,
            None => {
                return Err(CurveError::Overflow);
            },
        };
        Ok(XYAmounts { x, y })
    }
}

} // verus!
