//! Whom the rounding of the curve favours: always the pool.
//!
//! A deposit pays at least the exact proportional amount and a withdrawal is
//! paid at most that, so shares that are bought and sold back never return
//! more than they cost.

use crate::constant_product_curve::constant_product::amount_to_give;
use crate::constant_product_curve::constant_product::amount_to_take;
use crate::constant_product_curve::constant_product::growth_ratio;
use crate::constant_product_curve::constant_product::retained_ratio;
use crate::constant_product_curve::rounding::div_ceil;
use crate::constant_product_curve::rounding::lemma_div_ceil_bounds;
use crate::constant_product_curve::rounding::lemma_div_ceil_least;
use crate::constant_product_curve::rounding::lemma_div_ceil_sign;
use vstd::prelude::*;

verus! {

/// A reserve that grew by the growth ratio of the shares has grown at least
/// as the shares did: `grown * total_lp >= total * (total_lp + lp_required)`.
pub proof fn lemma_growth_covers_shares(total: int, total_lp: int, lp_required: int, scale: int)
    requires
        total >= 0,
        total_lp > 0,
        lp_required >= 0,
        scale > 0,
    ensures
        growth_ratio(total_lp, lp_required, scale) >= scale,
        div_ceil(total * growth_ratio(total_lp, lp_required, scale), scale) * total_lp >= total * (
        total_lp + lp_required),
{
    let ratio = growth_ratio(total_lp, lp_required, scale);
    let grown = div_ceil(total * ratio, scale);
    lemma_div_ceil_bounds((total_lp + lp_required) * scale, total_lp);
    lemma_div_ceil_bounds(total * ratio, scale);
    assert(ratio >= scale) by (nonlinear_arith)
        requires
            ratio * total_lp >= (total_lp + lp_required) * scale,
            total_lp > 0,
            lp_required >= 0,
            scale > 0,
    ;
    assert(grown * scale * total_lp >= total * (total_lp + lp_required) * scale)
        by (nonlinear_arith)
        requires
            grown * scale >= total * ratio,
            ratio * total_lp >= (total_lp + lp_required) * scale,
            total >= 0,
            total_lp > 0,
    ;
    assert(grown * total_lp >= total * (total_lp + lp_required)) by (nonlinear_arith)
        requires
            grown * scale * total_lp >= total * (total_lp + lp_required) * scale,
            scale > 0,
    ;
}

/// A depositor never pays less than the exact proportional amount
/// `total * lp_required / total_lp`.
pub proof fn lemma_give_covers_share(total: int, total_lp: int, lp_required: int, scale: int)
    requires
        total >= 0,
        total_lp > 0,
        lp_required >= 0,
        scale > 0,
    ensures
        amount_to_give(total, growth_ratio(total_lp, lp_required, scale), scale) >= 0,
        amount_to_give(total, growth_ratio(total_lp, lp_required, scale), scale) * total_lp
            >= total * lp_required,
{
    lemma_growth_covers_shares(total, total_lp, lp_required, scale);
    let grown = div_ceil(total * growth_ratio(total_lp, lp_required, scale), scale);
    assert((grown - total) * total_lp >= total * lp_required && grown - total >= 0)
        by (nonlinear_arith)
        requires
            grown * total_lp >= total * (total_lp + lp_required),
            total >= 0,
            total_lp > 0,
            lp_required >= 0,
    ;
}

/// A depositor pays more than the exact proportional amount only by what
/// rounding adds: less than one unit and one part in `scale` of the reserve.
pub proof fn lemma_give_is_close_to_share(total: int, total_lp: int, lp_required: int, scale: int)
    requires
        total >= 0,
        total_lp > 0,
        lp_required >= 0,
        scale > 0,
    ensures
        (amount_to_give(total, growth_ratio(total_lp, lp_required, scale), scale) - 1) * scale
            * total_lp < total * lp_required * scale + total * total_lp,
{
    let ratio = growth_ratio(total_lp, lp_required, scale);
    let grown = div_ceil(total * ratio, scale);
    lemma_div_ceil_bounds((total_lp + lp_required) * scale, total_lp);
    lemma_div_ceil_bounds(total * ratio, scale);
    assert((grown - 1) * scale * total_lp < total * ratio * total_lp) by (nonlinear_arith)
        requires
            (grown - 1) * scale < total * ratio,
            total_lp > 0,
    ;
    assert(total * ratio * total_lp <= total * (total_lp + lp_required) * scale + total
        * total_lp) by (nonlinear_arith)
        requires
            (ratio - 1) * total_lp < (total_lp + lp_required) * scale,
            total >= 0,
    ;
    assert((grown - total - 1) * scale * total_lp < total * lp_required * scale + total
        * total_lp) by (nonlinear_arith)
        requires
            (grown - 1) * scale * total_lp < total * ratio * total_lp,
            total * ratio * total_lp <= total * (total_lp + lp_required) * scale + total
                * total_lp,
    ;
}

/// What the pool keeps of a reserve when shares are retired is at least the
/// part that the remaining shares stand for, and at most the reserve:
/// `kept * total_lp >= total * (total_lp - lp_give)`.
pub proof fn lemma_kept_covers_shares(total: int, total_lp: int, lp_give: int, scale: int)
    requires
        total >= 0,
        total_lp > 0,
        0 <= lp_give <= total_lp,
        scale > 0,
    ensures
        0 <= retained_ratio(total_lp, lp_give, scale) <= scale,
        0 <= div_ceil(total * retained_ratio(total_lp, lp_give, scale), scale) <= total,
        div_ceil(total * retained_ratio(total_lp, lp_give, scale), scale) * total_lp >= total * (
        total_lp - lp_give),
{
    let ratio = retained_ratio(total_lp, lp_give, scale);
    let kept = div_ceil(total * ratio, scale);
    let left = total_lp - lp_give;
    assert(0 <= left * scale <= total_lp * scale && scale * total_lp == total_lp * scale)
        by (nonlinear_arith)
        requires
            0 <= left <= total_lp,
            scale > 0,
    ;
    lemma_div_ceil_bounds(left * scale, total_lp);
    lemma_div_ceil_sign(left * scale, total_lp);
    lemma_div_ceil_least(left * scale, total_lp, scale);
    assert(0 <= total * ratio <= total * scale) by (nonlinear_arith)
        requires
            0 <= ratio <= scale,
            total >= 0,
    ;
    lemma_div_ceil_bounds(total * ratio, scale);
    lemma_div_ceil_sign(total * ratio, scale);
    lemma_div_ceil_least(total * ratio, scale, total);
    assert(kept * scale * total_lp >= total * left * scale) by (nonlinear_arith)
        requires
            kept * scale >= total * ratio,
            ratio * total_lp >= left * scale,
            total >= 0,
            total_lp > 0,
    ;
    assert(kept * total_lp >= total * left) by (nonlinear_arith)
        requires
            kept * scale * total_lp >= total * left * scale,
            scale > 0,
    ;
}

/// A withdrawer is never paid more than the exact proportional amount
/// `total * lp_give / total_lp`, nor more than the reserve holds.
pub proof fn lemma_take_within_share(total: int, total_lp: int, lp_give: int, scale: int)
    requires
        total >= 0,
        total_lp > 0,
        0 <= lp_give <= total_lp,
        scale > 0,
    ensures
        0 <= amount_to_take(total, retained_ratio(total_lp, lp_give, scale), scale) <= total,
        amount_to_take(total, retained_ratio(total_lp, lp_give, scale), scale) * total_lp <= total
            * lp_give,
{
    lemma_kept_covers_shares(total, total_lp, lp_give, scale);
    let kept = div_ceil(total * retained_ratio(total_lp, lp_give, scale), scale);
    assert((total - kept) * total_lp <= total * lp_give) by (nonlinear_arith)
        requires
            kept * total_lp >= total * (total_lp - lp_give),
    ;
}

/// A withdrawer is paid less than the exact proportional amount only by what
/// rounding takes: less than one unit and one part in `scale` of the reserve.
pub proof fn lemma_take_is_close_to_share(total: int, total_lp: int, lp_give: int, scale: int)
    requires
        total >= 0,
        total_lp > 0,
        0 <= lp_give <= total_lp,
        scale > 0,
    ensures
        (amount_to_take(total, retained_ratio(total_lp, lp_give, scale), scale) + 1) * scale
            * total_lp > total * lp_give * scale - total * total_lp,
{
    let ratio = retained_ratio(total_lp, lp_give, scale);
    let kept = div_ceil(total * ratio, scale);
    lemma_div_ceil_bounds((total_lp - lp_give) * scale, total_lp);
    lemma_div_ceil_bounds(total * ratio, scale);
    assert((kept - 1) * scale * total_lp < total * ratio * total_lp) by (nonlinear_arith)
        requires
            (kept - 1) * scale < total * ratio,
            total_lp > 0,
    ;
    assert(total * ratio * total_lp <= total * (total_lp - lp_give) * scale + total * total_lp)
        by (nonlinear_arith)
        requires
            (ratio - 1) * total_lp < (total_lp - lp_give) * scale,
            total >= 0,
    ;
    assert((total - kept + 1) * scale * total_lp > total * lp_give * scale - total * total_lp)
        by (nonlinear_arith)
        requires
            (kept - 1) * scale * total_lp < total * ratio * total_lp,
            total * ratio * total_lp <= total * (total_lp - lp_give) * scale + total
                * total_lp,
    ;
}

/// Retiring every share empties the reserve, and retiring none takes
/// nothing.
pub proof fn lemma_take_all_or_nothing(total: int, total_lp: int, scale: int)
    requires
        total >= 0,
        total_lp > 0,
        scale > 0,
    ensures
        amount_to_take(total, retained_ratio(total_lp, total_lp, scale), scale) == total,
        amount_to_take(total, retained_ratio(total_lp, 0, scale), scale) == 0,
{
    assert((total_lp - total_lp) * scale == 0) by (nonlinear_arith);
    lemma_div_ceil_sign(0, total_lp);
    assert(total * 0 == 0) by (nonlinear_arith);
    lemma_div_ceil_sign(0, scale);

    lemma_kept_covers_shares(total, total_lp, 0, scale);
    let kept = div_ceil(total * retained_ratio(total_lp, 0, scale), scale);
    assert(kept >= total) by (nonlinear_arith)
        requires
            kept * total_lp >= total * (total_lp - 0),
            total_lp > 0,
    ;
}

/// Shares that are bought and at once sold back return no more than they
/// cost: after a deposit for `lp` shares into a reserve of `total` backing
/// `total_lp` shares, a withdrawal of the same `lp` shares pays at most what
/// the deposit paid.
pub proof fn lemma_round_trip_returns_no_more(total: int, total_lp: int, lp: int, scale: int)
    requires
        total >= 0,
        total_lp > 0,
        lp >= 0,
        scale > 0,
    ensures
        ({
            let given = amount_to_give(total, growth_ratio(total_lp, lp, scale), scale);
            let taken = amount_to_take(
                total + given,
                retained_ratio(total_lp + lp, lp, scale),
                scale,
            );
            0 <= taken <= given
        }),
{
    let given = amount_to_give(total, growth_ratio(total_lp, lp, scale), scale);
    let grown = total + given;
    let grown_lp = total_lp + lp;
    let kept = div_ceil(grown * retained_ratio(grown_lp, lp, scale), scale);
    lemma_growth_covers_shares(total, total_lp, lp, scale);
    lemma_give_covers_share(total, total_lp, lp, scale);
    lemma_kept_covers_shares(grown, grown_lp, lp, scale);
    assert(kept >= total) by (nonlinear_arith)
        requires
            kept * grown_lp >= grown * (grown_lp - lp),
            grown * total_lp >= total * (total_lp + lp),
            grown_lp == total_lp + lp,
            total_lp > 0,
            lp >= 0,
            total >= 0,
            grown >= 0,
    ;
}

/// What a round trip costs is bounded by the rounding: after a deposit for
/// `lp` shares and the withdrawal of the same shares, what was paid in and
/// not paid back is less than two units plus one part in `scale` of the
/// reserve before and the reserve after the deposit, taken together.
pub proof fn lemma_round_trip_cost_is_bounded(total: int, total_lp: int, lp: int, scale: int)
    requires
        total >= 0,
        total_lp > 0,
        lp >= 0,
        scale > 0,
    ensures
        ({
            let given = amount_to_give(total, growth_ratio(total_lp, lp, scale), scale);
            let taken = amount_to_take(
                total + given,
                retained_ratio(total_lp + lp, lp, scale),
                scale,
            );
            (given - taken - 2) * scale < total + (total + given)
        }),
{
    let up = growth_ratio(total_lp, lp, scale);
    let grown = div_ceil(total * up, scale);
    let grown_lp = total_lp + lp;
    let down = retained_ratio(grown_lp, lp, scale);
    let kept = div_ceil(grown * down, scale);
    lemma_growth_covers_shares(total, total_lp, lp, scale);
    lemma_give_covers_share(total, total_lp, lp, scale);
    lemma_kept_covers_shares(grown, grown_lp, lp, scale);
    lemma_div_ceil_bounds(grown_lp * scale, total_lp);
    lemma_div_ceil_bounds(total * up, scale);
    lemma_div_ceil_bounds((grown_lp - lp) * scale, grown_lp);
    lemma_div_ceil_bounds(grown * down, scale);
    assert((kept - 1) * scale * grown_lp < grown * down * grown_lp) by (nonlinear_arith)
        requires
            (kept - 1) * scale < grown * down,
            grown_lp > 0,
    ;
    assert(grown * down * grown_lp <= grown * total_lp * scale + grown * grown_lp)
        by (nonlinear_arith)
        requires
            (down - 1) * grown_lp < (grown_lp - lp) * scale,
            grown_lp - lp == total_lp,
            grown >= 0,
    ;
    assert((grown - 1) * scale * total_lp < total * up * total_lp) by (nonlinear_arith)
        requires
            (grown - 1) * scale < total * up,
            total_lp > 0,
    ;
    assert(total * up * total_lp <= total * grown_lp * scale + total * total_lp)
        by (nonlinear_arith)
        requires
            (up - 1) * total_lp < grown_lp * scale,
            total >= 0,
    ;
    assert(grown * total_lp * scale < total * grown_lp * scale + total * grown_lp + scale
        * grown_lp) by (nonlinear_arith)
        requires
            (grown - 1) * scale * total_lp < total * up * total_lp,
            total * up * total_lp <= total * grown_lp * scale + total * total_lp,
            0 < total_lp <= grown_lp,
            total >= 0,
            scale > 0,
    ;
    assert((kept - total - 2) * scale * grown_lp < (total + grown) * grown_lp)
        by (nonlinear_arith)
        requires
            (kept - 1) * scale * grown_lp < grown * down * grown_lp,
            grown * down * grown_lp <= grown * total_lp * scale + grown * grown_lp,
            grown * total_lp * scale < total * grown_lp * scale + total * grown_lp + scale
                * grown_lp,
    ;
    assert((kept - total - 2) * scale < total + grown) by (nonlinear_arith)
        requires
            (kept - total - 2) * scale * grown_lp < (total + grown) * grown_lp,
            grown_lp > 0,
    ;
}

} // verus!
