//! Which operations keep a pool either empty or funded on both sides, and
//! what deposits and withdrawals do to the worth of a share.

use crate::constant_product_curve::constant_product::retained_ratio;
use crate::constant_product_curve::constant_product::scaling_factor;
use crate::constant_product_curve::constant_product::lemma_scaling_factor_range;
use crate::constant_product_curve::fairness::lemma_give_covers_share;
use crate::constant_product_curve::fairness::lemma_growth_covers_shares;
use crate::constant_product_curve::fairness::lemma_kept_covers_shares;
use crate::constant_product_curve::fairness::lemma_take_all_or_nothing;
use crate::constant_product_curve::rounding::lemma_div_ceil_sign;
use crate::context::deposit::after_deposit;
use crate::context::deposit::spec_deposit;
use crate::context::swap::after_swap;
use crate::context::swap::lemma_swap_amount_out_range;
use crate::context::swap::priced_reserve_in;
use crate::context::swap::spec_swap;
use crate::context::withdraw::after_withdraw;
use crate::context::withdraw::spec_withdraw;
use crate::states::pool::PoolState;
use vstd::arithmetic::div_mod::lemma_basic_div;
use vstd::arithmetic::div_mod::lemma_div_non_zero;
use vstd::prelude::*;

verus! {

/// A deposit never shrinks a reserve and always leaves shares outstanding. A
/// funded pool stays funded, and an empty one becomes funded where both
/// ceilings of the first deposit are above zero.
pub proof fn lemma_deposit_keeps_funded(pool: PoolState, amount: u64, max_x: u64, max_y: u64)
    ensures
        spec_deposit(pool, amount, max_x, max_y) matches Ok(given) ==> ({
            let after = after_deposit(pool, given, amount);
            &&& after.reserve_x >= pool.reserve_x
            &&& after.reserve_y >= pool.reserve_y
            &&& after.lp_supply > pool.lp_supply
            &&& pool.is_funded() ==> after.is_funded()
            &&& pool.is_empty() && max_x > 0 && max_y > 0 ==> after.is_funded()
        }),
{
}

/// A withdrawal of a part of the shares leaves a funded pool funded: of each
/// reserve the pool keeps at least one unit. A withdrawal of all shares
/// empties the pool.
pub proof fn lemma_withdraw_keeps_balance(
    pool: PoolState,
    user_lp: u64,
    min_x: u64,
    min_y: u64,
    lp_amount: u64,
)
    ensures
        spec_withdraw(pool, user_lp, min_x, min_y, lp_amount) matches Ok(taken) ==> ({
            let after = after_withdraw(pool, taken, lp_amount);
            &&& after.reserve_x <= pool.reserve_x
            &&& after.reserve_y <= pool.reserve_y
            &&& after.lp_supply < pool.lp_supply
            &&& lp_amount == pool.lp_supply ==> after.is_empty()
            &&& lp_amount < pool.lp_supply && pool.is_funded() ==> after.is_funded()
        }),
{
    if let Ok(taken) = spec_withdraw(pool, user_lp, min_x, min_y, lp_amount) {
        let scale = scaling_factor(pool.precision);
        let total_lp = pool.lp_supply as int;
        lemma_scaling_factor_range(pool.precision);
        lemma_kept_covers_shares(pool.reserve_x as int, total_lp, lp_amount as int, scale);
        lemma_kept_covers_shares(pool.reserve_y as int, total_lp, lp_amount as int, scale);
        if lp_amount == pool.lp_supply {
            lemma_take_all_or_nothing(pool.reserve_x as int, total_lp, scale);
            lemma_take_all_or_nothing(pool.reserve_y as int, total_lp, scale);
        } else if pool.is_funded() {
            let ratio = retained_ratio(total_lp, lp_amount as int, scale);
            assert((total_lp - lp_amount) * scale > 0) by (nonlinear_arith)
                requires
                    total_lp - lp_amount > 0,
                    scale > 0,
            ;
            lemma_div_ceil_sign((total_lp - lp_amount) * scale, total_lp);
            assert(pool.reserve_x * ratio > 0 && pool.reserve_y * ratio > 0) by (nonlinear_arith)
                requires
                    pool.reserve_x > 0,
                    pool.reserve_y > 0,
                    ratio >= 1,
            ;
            lemma_div_ceil_sign(pool.reserve_x * ratio, scale);
            lemma_div_ceil_sign(pool.reserve_y * ratio, scale);
        }
    }
}

/// A deposit never lowers what a share is worth: each reserve grows at least
/// as the share supply does. The pool is one whose reserves belong to
/// shares.
pub proof fn lemma_deposit_keeps_share_value(pool: PoolState, amount: u64, max_x: u64, max_y: u64)
    requires
        pool.is_backed(),
    ensures
        spec_deposit(pool, amount, max_x, max_y) matches Ok(given) ==> ({
            let after = after_deposit(pool, given, amount);
            &&& after.reserve_x * pool.lp_supply >= pool.reserve_x * after.lp_supply
            &&& after.reserve_y * pool.lp_supply >= pool.reserve_y * after.lp_supply
        }),
{
    if let Ok(given) = spec_deposit(pool, amount, max_x, max_y) {
        let after = after_deposit(pool, given, amount);
        let after_x = after.reserve_x as int;
        let after_y = after.reserve_y as int;
        let after_lp = after.lp_supply as int;
        let total_x = pool.reserve_x as int;
        let total_y = pool.reserve_y as int;
        let total_lp = pool.lp_supply as int;
        if pool.lp_supply == 0 {
            assert(after_x * total_lp >= total_x * after_lp && after_y * total_lp >= total_y
                * after_lp) by (nonlinear_arith)
                requires
                    total_lp == 0,
                    total_x == 0,
                    total_y == 0,
            ;
        } else {
            let scale = scaling_factor(pool.precision);
            lemma_scaling_factor_range(pool.precision);
            lemma_growth_covers_shares(total_x, total_lp, amount as int, scale);
            lemma_growth_covers_shares(total_y, total_lp, amount as int, scale);
            lemma_give_covers_share(total_x, total_lp, amount as int, scale);
            lemma_give_covers_share(total_y, total_lp, amount as int, scale);
        }
    }
}

/// A withdrawal never lowers what a remaining share is worth: each reserve
/// shrinks at most as the share supply does.
pub proof fn lemma_withdraw_keeps_share_value(
    pool: PoolState,
    user_lp: u64,
    min_x: u64,
    min_y: u64,
    lp_amount: u64,
)
    ensures
        spec_withdraw(pool, user_lp, min_x, min_y, lp_amount) matches Ok(taken) ==> ({
            let after = after_withdraw(pool, taken, lp_amount);
            &&& after.reserve_x * pool.lp_supply >= pool.reserve_x * after.lp_supply
            &&& after.reserve_y * pool.lp_supply >= pool.reserve_y * after.lp_supply
        }),
{
    if let Ok(taken) = spec_withdraw(pool, user_lp, min_x, min_y, lp_amount) {
        let scale = scaling_factor(pool.precision);
        let total_lp = pool.lp_supply as int;
        lemma_scaling_factor_range(pool.precision);
        lemma_kept_covers_shares(pool.reserve_x as int, total_lp, lp_amount as int, scale);
        lemma_kept_covers_shares(pool.reserve_y as int, total_lp, lp_amount as int, scale);
    }
}

/// A swap leaves the share supply alone and adds to the reserve paid into.
/// Of the reserve paid out of it leaves something exactly where the product
/// of the reserves is at least the priced reserve of the asset paid in: a
/// swap that is large against the pool takes all there is.
pub proof fn lemma_swap_keeps_shares(pool: PoolState, amount_in: u64, min_out: u64, is_x_in: bool)
    ensures
        spec_swap(pool, amount_in, min_out, is_x_in) matches Ok(amount_out) ==> ({
            let after = after_swap(pool, amount_in, amount_out, is_x_in);
            &&& after.lp_supply == pool.lp_supply
            &&& after.reserve_in(is_x_in) > pool.reserve_in(is_x_in)
            &&& after.reserve_out(is_x_in) <= pool.reserve_out(is_x_in)
            &&& after.reserve_out(is_x_in) > 0 <==> pool.product() >= priced_reserve_in(
                pool.reserve_in(is_x_in) as int,
                amount_in as int,
                pool.config.fees as int,
            )
        }),
{
    if let Ok(amount_out) = spec_swap(pool, amount_in, min_out, is_x_in) {
        let reserve_in = pool.reserve_in(is_x_in) as int;
        let reserve_out = pool.reserve_out(is_x_in) as int;
        let fee_bps = pool.config.fees as int;
        let priced = priced_reserve_in(reserve_in, amount_in as int, fee_bps);
        let product = reserve_in * reserve_out;
        lemma_swap_amount_out_range(reserve_in, reserve_out, amount_in as int, fee_bps);
        assert(pool.product() == product) by (nonlinear_arith)
            requires
                pool.product() == pool.reserve_x * pool.reserve_y,
                product == reserve_in * reserve_out,
                is_x_in ==> reserve_in == pool.reserve_x && reserve_out == pool.reserve_y,
                !is_x_in ==> reserve_in == pool.reserve_y && reserve_out == pool.reserve_x,
        ;
        assert(product >= 0) by (nonlinear_arith)
            requires
                reserve_in >= 0,
                reserve_out >= 0,
                product == reserve_in * reserve_out,
        ;
        if product >= priced {
            lemma_div_non_zero(product, priced);
        } else {
            lemma_basic_div(product, priced);
        }
    }
}

} // verus!
