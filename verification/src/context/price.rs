//! What a swap does to the product of the reserves, and how the fee and the
//! caller's bound act on the amount paid out.

use crate::context::error::ErrorCode;
use crate::context::swap::after_swap;
use crate::context::swap::amount_in_after_fee;
use crate::context::swap::lemma_swap_amount_out_range;
use crate::context::swap::priced_reserve_in;
use crate::context::swap::reserve_out_after;
use crate::context::swap::spec_swap;
use crate::context::swap::swap_amount_out;
use crate::states::config::Config;
use crate::states::pool::PoolState;
use crate::states::pool::MAX_FEE_BPS;
use vstd::arithmetic::div_mod::lemma_div_is_ordered;
use vstd::arithmetic::div_mod::lemma_div_is_ordered_by_denominator;
use vstd::arithmetic::div_mod::lemma_fundamental_div_mod;
use vstd::prelude::*;

verus! {

/// The part of `amount_in` that the fee keeps out of the price.
pub open spec fn fee_kept(amount_in: int, fee_bps: int) -> int {
    amount_in - amount_in_after_fee(amount_in, fee_bps)
}

/// What is lost of the product when the new reserve of the asset paid out is
/// rounded down: the remainder of the division that gives it.
pub open spec fn rounding_loss(reserve_in: int, reserve_out: int, amount_in: int, fee_bps: int) -> int {
    (reserve_in * reserve_out) % priced_reserve_in(reserve_in, amount_in, fee_bps)
}

/// The same pool with another fee.
pub open spec fn with_fee(pool: PoolState, fee_bps: u16) -> PoolState {
    PoolState { config: Config { fees: fee_bps, ..pool.config }, ..pool }
}

/// A fee above zero keeps at least one unit of every amount paid in.
pub proof fn lemma_fee_kept_range(amount_in: u64, fee_bps: u16)
    requires
        fee_bps <= MAX_FEE_BPS,
    ensures
        0 <= fee_kept(amount_in as int, fee_bps as int) <= amount_in,
        fee_bps > 0 && amount_in > 0 ==> fee_kept(amount_in as int, fee_bps as int) >= 1,
        fee_bps == 0 ==> fee_kept(amount_in as int, fee_bps as int) == 0,
{
    let kept_bps = MAX_FEE_BPS - fee_bps;
    assert(0 <= amount_in * kept_bps <= amount_in * 10_000) by (nonlinear_arith)
        requires
            amount_in >= 0,
            0 <= kept_bps <= 10_000,
    ;
    if fee_bps > 0 && amount_in > 0 {
        assert(amount_in * kept_bps < amount_in * 10_000) by (nonlinear_arith)
            requires
                amount_in > 0,
                0 <= kept_bps < 10_000,
        ;
    }
}

/// After a swap the product of the reserves is the product before, less what
/// rounding the new reserve down loses, plus the fee kept times the new
/// reserve of the asset paid out.
pub proof fn lemma_swap_product(pool: PoolState, amount_in: u64, min_out: u64, is_x_in: bool)
    ensures
        spec_swap(pool, amount_in, min_out, is_x_in) matches Ok(amount_out) ==> ({
            let after = after_swap(pool, amount_in, amount_out, is_x_in);
            let reserve_in = pool.reserve_in(is_x_in) as int;
            let reserve_out = pool.reserve_out(is_x_in) as int;
            let fee_bps = pool.config.fees as int;
            &&& after.reserve_in(is_x_in) == reserve_in + amount_in
            &&& after.reserve_out(is_x_in) == reserve_out_after(
                reserve_in,
                reserve_out,
                amount_in as int,
                fee_bps,
            )
            &&& after.product() == pool.product() - rounding_loss(
                reserve_in,
                reserve_out,
                amount_in as int,
                fee_bps,
            ) + fee_kept(amount_in as int, fee_bps) * after.reserve_out(is_x_in)
        }),
{
    if let Ok(amount_out) = spec_swap(pool, amount_in, min_out, is_x_in) {
        let after = after_swap(pool, amount_in, amount_out, is_x_in);
        let reserve_in = pool.reserve_in(is_x_in) as int;
        let reserve_out = pool.reserve_out(is_x_in) as int;
        let fee_bps = pool.config.fees as int;
        let net_in = amount_in_after_fee(amount_in as int, fee_bps);
        let priced = priced_reserve_in(reserve_in, amount_in as int, fee_bps);
        let product = reserve_in * reserve_out;
        let new_out = reserve_out_after(reserve_in, reserve_out, amount_in as int, fee_bps);
        let fee = fee_kept(amount_in as int, fee_bps);
        lemma_swap_amount_out_range(reserve_in, reserve_out, amount_in as int, fee_bps);
        lemma_fundamental_div_mod(product, priced);
        assert(pool.product() == product && after.product() == (reserve_in + amount_in) * new_out)
            by (nonlinear_arith)
            requires
                pool.product() == pool.reserve_x * pool.reserve_y,
                after.product() == after.reserve_x * after.reserve_y,
                product == reserve_in * reserve_out,
                is_x_in ==> reserve_in == pool.reserve_x && reserve_out == pool.reserve_y
                    && after.reserve_x == reserve_in + amount_in && after.reserve_y == new_out,
                !is_x_in ==> reserve_in == pool.reserve_y && reserve_out == pool.reserve_x
                    && after.reserve_y == reserve_in + amount_in && after.reserve_x == new_out,
        ;
        assert((reserve_in + amount_in) * new_out == product - product % priced + fee * new_out)
            by (nonlinear_arith)
            requires
                product == priced * new_out + product % priced,
                priced == reserve_in + net_in,
                fee == amount_in - net_in,
        ;
    }
}

/// A swap does not lower the product of the reserves where the fee kept,
/// times the new reserve of the asset paid out, covers what rounding loses,
/// and raises it where it more than covers that. Where it does not cover it,
/// the product falls: with no fee, every swap that rounds lowers it.
pub proof fn lemma_swap_product_does_not_fall(
    pool: PoolState,
    amount_in: u64,
    min_out: u64,
    is_x_in: bool,
)
    requires
        rounding_loss(
            pool.reserve_in(is_x_in) as int,
            pool.reserve_out(is_x_in) as int,
            amount_in as int,
            pool.config.fees as int,
        ) <= fee_kept(amount_in as int, pool.config.fees as int) * reserve_out_after(
            pool.reserve_in(is_x_in) as int,
            pool.reserve_out(is_x_in) as int,
            amount_in as int,
            pool.config.fees as int,
        ),
    ensures
        spec_swap(pool, amount_in, min_out, is_x_in) matches Ok(amount_out) ==> ({
            let after = after_swap(pool, amount_in, amount_out, is_x_in);
            &&& after.product() >= pool.product()
            &&& rounding_loss(
                pool.reserve_in(is_x_in) as int,
                pool.reserve_out(is_x_in) as int,
                amount_in as int,
                pool.config.fees as int,
            ) < fee_kept(amount_in as int, pool.config.fees as int) * after.reserve_out(is_x_in)
                ==> after.product() > pool.product()
        }),
{
    lemma_swap_product(pool, amount_in, min_out, is_x_in);
}

/// A swap that divides without remainder never lowers the product of the
/// reserves, and with a fee above zero it raises it unless it empties the
/// reserve it pays out of.
pub proof fn lemma_exact_swap_keeps_product(
    pool: PoolState,
    amount_in: u64,
    min_out: u64,
    is_x_in: bool,
)
    requires
        rounding_loss(
            pool.reserve_in(is_x_in) as int,
            pool.reserve_out(is_x_in) as int,
            amount_in as int,
            pool.config.fees as int,
        ) == 0,
    ensures
        spec_swap(pool, amount_in, min_out, is_x_in) matches Ok(amount_out) ==> ({
            let after = after_swap(pool, amount_in, amount_out, is_x_in);
            &&& after.product() >= pool.product()
            &&& pool.config.fees > 0 && after.reserve_out(is_x_in) > 0 ==> after.product()
                > pool.product()
        }),
{
    lemma_swap_product(pool, amount_in, min_out, is_x_in);
    if let Ok(amount_out) = spec_swap(pool, amount_in, min_out, is_x_in) {
        let after = after_swap(pool, amount_in, amount_out, is_x_in);
        let fee = fee_kept(amount_in as int, pool.config.fees as int);
        let new_out = after.reserve_out(is_x_in) as int;
        lemma_fee_kept_range(amount_in, pool.config.fees);
        assert(fee * new_out >= 0 && (fee >= 1 && new_out > 0 ==> fee * new_out > 0))
            by (nonlinear_arith)
            requires
                fee >= 0,
                new_out >= 0,
        ;
    }
}

/// For the same reserves and the same amount paid in, a higher fee never
/// pays out more; so no fee pays out the most.
pub proof fn lemma_amount_out_falls_with_fee(
    reserve_in: u64,
    reserve_out: u64,
    amount_in: u64,
    fee_low: u16,
    fee_high: u16,
)
    requires
        fee_low <= fee_high <= MAX_FEE_BPS,
        priced_reserve_in(reserve_in as int, amount_in as int, fee_high as int) > 0,
    ensures
        amount_in_after_fee(amount_in as int, fee_low as int) >= amount_in_after_fee(
            amount_in as int,
            fee_high as int,
        ),
        swap_amount_out(reserve_in as int, reserve_out as int, amount_in as int, fee_low as int)
            >= swap_amount_out(
            reserve_in as int,
            reserve_out as int,
            amount_in as int,
            fee_high as int,
        ),
{
    let kept_low = MAX_FEE_BPS - fee_low;
    let kept_high = MAX_FEE_BPS - fee_high;
    assert(0 <= amount_in * kept_high <= amount_in * kept_low) by (nonlinear_arith)
        requires
            amount_in >= 0,
            0 <= kept_high <= kept_low,
    ;
    lemma_div_is_ordered(amount_in * kept_high, amount_in * kept_low, MAX_FEE_BPS as int);
    let priced_low = priced_reserve_in(reserve_in as int, amount_in as int, fee_low as int);
    let priced_high = priced_reserve_in(reserve_in as int, amount_in as int, fee_high as int);
    let product = reserve_in * reserve_out;
    assert(product >= 0) by (nonlinear_arith)
        requires
            reserve_in >= 0,
            reserve_out >= 0,
            product == reserve_in * reserve_out,
    ;
    lemma_div_is_ordered_by_denominator(product, priced_high, priced_low);
}

/// A swap that succeeds at some fee succeeds at every lower fee, and pays
/// out no less.
pub proof fn lemma_lower_fee_pays_no_less(
    pool: PoolState,
    fee_low: u16,
    amount_in: u64,
    min_out: u64,
    is_x_in: bool,
)
    requires
        fee_low <= pool.config.fees,
    ensures
        spec_swap(pool, amount_in, min_out, is_x_in) matches Ok(amount_out) ==> (spec_swap(
            with_fee(pool, fee_low),
            amount_in,
            min_out,
            is_x_in,
        ) matches Ok(more) && more >= amount_out),
{
    if let Ok(amount_out) = spec_swap(pool, amount_in, min_out, is_x_in) {
        let reserve_in = pool.reserve_in(is_x_in);
        let reserve_out = pool.reserve_out(is_x_in);
        lemma_amount_out_falls_with_fee(
            reserve_in,
            reserve_out,
            amount_in,
            fee_low,
            pool.config.fees,
        );
        lemma_swap_amount_out_range(
            reserve_in as int,
            reserve_out as int,
            amount_in as int,
            fee_low as int,
        );
    }
}

/// A bound above the amount that a swap would pay out has the swap refused
/// for slippage, whatever else holds of it; one unit above is enough.
pub proof fn lemma_bound_above_output_is_refused(
    pool: PoolState,
    amount_in: u64,
    min_out: u64,
    is_x_in: bool,
)
    requires
        amount_in > 0,
        pool.config.fees <= MAX_FEE_BPS,
        priced_reserve_in(
            pool.reserve_in(is_x_in) as int,
            amount_in as int,
            pool.config.fees as int,
        ) > 0,
        min_out > swap_amount_out(
            pool.reserve_in(is_x_in) as int,
            pool.reserve_out(is_x_in) as int,
            amount_in as int,
            pool.config.fees as int,
        ),
    ensures
        spec_swap(pool, amount_in, min_out, is_x_in) == Err::<u64, ErrorCode>(
            ErrorCode::SlippageExceeded,
        ),
{
}

/// A swap that succeeds pays out exactly the computed amount, and the same
/// swap with a bound one unit above that amount is refused for slippage.
pub proof fn lemma_one_above_output_is_refused(
    pool: PoolState,
    amount_in: u64,
    min_out: u64,
    is_x_in: bool,
)
    ensures
        spec_swap(pool, amount_in, min_out, is_x_in) matches Ok(amount_out) ==> ({
            &&& amount_out == swap_amount_out(
                pool.reserve_in(is_x_in) as int,
                pool.reserve_out(is_x_in) as int,
                amount_in as int,
                pool.config.fees as int,
            )
            &&& amount_out < u64::MAX ==> spec_swap(
                pool,
                amount_in,
                (amount_out + 1) as u64,
                is_x_in,
            ) == Err::<u64, ErrorCode>(ErrorCode::SlippageExceeded)
        }),
{
    if let Ok(amount_out) = spec_swap(pool, amount_in, min_out, is_x_in) {
        lemma_swap_amount_out_range(
            pool.reserve_in(is_x_in) as int,
            pool.reserve_out(is_x_in) as int,
            amount_in as int,
            pool.config.fees as int,
        );
    }
}

} // verus!
