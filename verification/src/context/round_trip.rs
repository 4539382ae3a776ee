//! A deposit followed by the withdrawal of the same shares.

use crate::constant_product_curve::constant_product::retained_ratio;
use crate::constant_product_curve::constant_product::scaling_factor;
use crate::constant_product_curve::constant_product::lemma_scaling_factor_range;
use crate::constant_product_curve::constant_product::XYAmounts;
use crate::constant_product_curve::fairness::lemma_give_covers_share;
use crate::constant_product_curve::fairness::lemma_kept_covers_shares;
use crate::constant_product_curve::fairness::lemma_round_trip_cost_is_bounded;
use crate::constant_product_curve::fairness::lemma_round_trip_returns_no_more;
use crate::constant_product_curve::fairness::lemma_take_all_or_nothing;
use crate::constant_product_curve::rounding::lemma_div_ceil_sign;
use crate::context::deposit::after_deposit;
use crate::context::deposit::spec_deposit;
use crate::context::error::ErrorCode;
use crate::context::withdraw::after_withdraw;
use crate::context::withdraw::spec_withdraw;
use crate::states::pool::PoolState;
use vstd::prelude::*;

verus! {

/// The first deposit into an empty pool pays exactly the two ceilings and is
/// never refused: afterwards the reserves are `max_x` and `max_y` and the
/// share supply is `amount`.
pub proof fn lemma_first_deposit_is_exact(pool: PoolState, amount: u64, max_x: u64, max_y: u64)
    requires
        pool.is_empty(),
        amount > 0,
    ensures
        spec_deposit(pool, amount, max_x, max_y) == Ok::<XYAmounts, ErrorCode>(
            XYAmounts { x: max_x, y: max_y },
        ),
        after_deposit(pool, XYAmounts { x: max_x, y: max_y }, amount).reserve_x == max_x,
        after_deposit(pool, XYAmounts { x: max_x, y: max_y }, amount).reserve_y == max_y,
        after_deposit(pool, XYAmounts { x: max_x, y: max_y }, amount).lp_supply == amount,
{
}

/// Shares that are bought and at once sold back return no more than they
/// cost. After a deposit for `amount` shares, a withdrawal of the same
/// `amount` by a holder of at least that many shares is refused for no
/// reason but an overflow of the fixed-point arithmetic, and never where the
/// scale times the largest reserve fits in 128 bits, which is so up to 19
/// digits of precision. Where it pays out, it pays at most what the deposit
/// paid in, and leaves the pool with no less than it had before the deposit.
/// What is not paid back is what rounding costs: of each asset less than two
/// units and one part in the scale of the reserve before and after the
/// deposit. For the first deposit into an empty pool the withdrawal pays out
/// exactly what was paid in and leaves the pool empty again, wherever the
/// scale itself fits in 128 bits.
pub proof fn lemma_deposit_then_withdraw(
    pool: PoolState,
    amount: u64,
    max_x: u64,
    max_y: u64,
    user_lp: u64,
)
    requires
        pool.is_backed(),
        user_lp >= amount,
    ensures
        spec_deposit(pool, amount, max_x, max_y) matches Ok(given) ==> ({
            let fuller = after_deposit(pool, given, amount);
            let sold_back = spec_withdraw(fuller, user_lp, 0, 0, amount);
            let scale = scaling_factor(pool.precision);
            &&& sold_back is Ok || sold_back == Err::<XYAmounts, ErrorCode>(ErrorCode::Overflow)
            &&& scale * u64::MAX <= u128::MAX ==> sold_back is Ok
            &&& pool.is_empty() && scale <= u128::MAX ==> sold_back is Ok
            &&& sold_back matches Ok(taken) ==> ({
                let back = after_withdraw(fuller, taken, amount);
                &&& taken.x <= given.x
                &&& taken.y <= given.y
                &&& back.reserve_x == pool.reserve_x + (given.x - taken.x)
                &&& back.reserve_y == pool.reserve_y + (given.y - taken.y)
                &&& back.lp_supply == pool.lp_supply
                &&& pool.is_empty() ==> taken == given && back == pool
                &&& (given.x - taken.x - 2) * scale < pool.reserve_x + fuller.reserve_x
                &&& (given.y - taken.y - 2) * scale < pool.reserve_y + fuller.reserve_y
            })
        }),
{
    if let Ok(given) = spec_deposit(pool, amount, max_x, max_y) {
        let scale = scaling_factor(pool.precision);
        let fuller = after_deposit(pool, given, amount);
        let grown_lp = fuller.lp_supply as int;
        lemma_scaling_factor_range(pool.precision);
        lemma_kept_covers_shares(fuller.reserve_x as int, grown_lp, amount as int, scale);
        lemma_kept_covers_shares(fuller.reserve_y as int, grown_lp, amount as int, scale);
        let back_ratio = retained_ratio(grown_lp, amount as int, scale);
        if scale * u64::MAX <= u128::MAX {
            assert((grown_lp - amount) * scale <= u128::MAX && fuller.reserve_x * back_ratio
                <= u128::MAX && fuller.reserve_y * back_ratio <= u128::MAX) by (nonlinear_arith)
                requires
                    0 <= grown_lp - amount <= u64::MAX,
                    0 <= fuller.reserve_x <= u64::MAX,
                    0 <= fuller.reserve_y <= u64::MAX,
                    0 <= back_ratio <= scale,
                    scale * u64::MAX <= u128::MAX,
            ;
        }
        if pool.lp_supply == 0 {
            lemma_take_all_or_nothing(max_x as int, amount as int, scale);
            lemma_take_all_or_nothing(max_y as int, amount as int, scale);
            assert((amount - amount) * scale == 0 && max_x * 0 == 0 && max_y * 0 == 0 && (0 - 2)
                * scale < 0) by (nonlinear_arith)
                requires
                    scale > 0,
            ;
            lemma_div_ceil_sign(0, amount as int);
        } else {
            let total_lp = pool.lp_supply as int;
            lemma_give_covers_share(pool.reserve_x as int, total_lp, amount as int, scale);
            lemma_give_covers_share(pool.reserve_y as int, total_lp, amount as int, scale);
            lemma_round_trip_returns_no_more(pool.reserve_x as int, total_lp, amount as int, scale);
            lemma_round_trip_returns_no_more(pool.reserve_y as int, total_lp, amount as int, scale);
            lemma_round_trip_cost_is_bounded(pool.reserve_x as int, total_lp, amount as int, scale);
            lemma_round_trip_cost_is_bounded(pool.reserve_y as int, total_lp, amount as int, scale);
        }
    }
}

} // verus!
