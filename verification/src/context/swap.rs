//! Swap: one asset in, the other out, at the price that keeps the product of
//! the reserves, less a fee.

use crate::context::error::ErrorCode;
use crate::context::ledger::Asset;
use crate::context::ledger::LedgerInstruction;
use crate::states::pool::PoolState;
use crate::states::pool::MAX_FEE_BPS;
use vstd::arithmetic::div_mod::lemma_div_is_ordered_by_denominator;
use vstd::arithmetic::div_mod::lemma_div_multiples_vanish;
use vstd::arithmetic::div_mod::lemma_div_pos_is_pos;
use vstd::prelude::*;

verus! {

/// What a swap works on.
#[derive(Debug, Clone, Copy, PartialEq, Eq)]
pub struct Swap {
    pub pool: PoolState,
}

/// The part of `amount_in` that is priced, once the fee of `fee_bps` basis
/// points is taken off, rounded down.
pub open spec fn amount_in_after_fee(amount_in: int, fee_bps: int) -> int {
    amount_in * (MAX_FEE_BPS - fee_bps) / (MAX_FEE_BPS as int)
}

/// The reserve of the asset paid in, as the price sees it: with the amount
/// paid in less the fee.
pub open spec fn priced_reserve_in(reserve_in: int, amount_in: int, fee_bps: int) -> int {
    reserve_in + amount_in_after_fee(amount_in, fee_bps)
}

/// The reserve of the asset paid out after the swap: the product of the two
/// reserves before, divided by the priced reserve of the asset paid in,
/// rounded down.
pub open spec fn reserve_out_after(
    reserve_in: int,
    reserve_out: int,
    amount_in: int,
    fee_bps: int,
) -> int {
    (reserve_in * reserve_out) / priced_reserve_in(reserve_in, amount_in, fee_bps)
}

/// The amount paid out for `amount_in`.
pub open spec fn swap_amount_out(
    reserve_in: int,
    reserve_out: int,
    amount_in: int,
    fee_bps: int,
) -> int {
    reserve_out - reserve_out_after(reserve_in, reserve_out, amount_in, fee_bps)
}

/// Whether a swap goes through, and with which amount: the amount paid out,
/// or the reason for refusing.
pub open spec fn spec_swap(pool: PoolState, amount_in: u64, min_out: u64, is_x_in: bool) -> Result<
    u64,
    ErrorCode,
> {
    let reserve_in = pool.reserve_in(is_x_in) as int;
    let reserve_out = pool.reserve_out(is_x_in) as int;
    let fee_bps = pool.config.fees as int;
    let amount_out = swap_amount_out(reserve_in, reserve_out, amount_in as int, fee_bps);
    if amount_in == 0 {
        Err(ErrorCode::InvalidAmount)
    } else if fee_bps > MAX_FEE_BPS {
        Err(ErrorCode::Overflow)
    } else if priced_reserve_in(reserve_in, amount_in as int, fee_bps) == 0 {
        Err(ErrorCode::Overflow)
    } else if amount_out < min_out {
        Err(ErrorCode::SlippageExceeded)
    } else if reserve_in + amount_in > u64::MAX {
        Err(ErrorCode::Overflow)
    } else {
        Ok(amount_out as u64)
    }
}

/// The pool after a swap of `amount_in` for `amount_out`. The whole amount
/// paid in joins its reserve, the fee with it.
pub open spec fn after_swap(pool: PoolState, amount_in: u64, amount_out: u64, is_x_in: bool) -> PoolState {
    if is_x_in {
        PoolState {
            reserve_x: (pool.reserve_x + amount_in) as u64,
            reserve_y: (pool.reserve_y - amount_out) as u64,
            ..pool
        }
    } else {
        PoolState {
            reserve_x: (pool.reserve_x - amount_out) as u64,
            reserve_y: (pool.reserve_y + amount_in) as u64,
            ..pool
        }
    }
}

/// What a swap of `amount_in` for `amount_out` asks of the ledger: the asset
/// paid in from the trader, then the other asset to the trader.
pub open spec fn swap_instructions(amount_in: u64, amount_out: u64, is_x_in: bool) -> Seq<
    LedgerInstruction,
> {
    seq![
        LedgerInstruction::Debit { asset: Asset::pick(is_x_in), amount: amount_in },
        LedgerInstruction::Credit { asset: Asset::pick(!is_x_in), amount: amount_out },
    ]
}

/// The amount paid out is never negative and never more than the reserve it
/// comes from.
pub proof fn lemma_swap_amount_out_range(
    reserve_in: int,
    reserve_out: int,
    amount_in: int,
    fee_bps: int,
)
    requires
        reserve_in >= 0,
        reserve_out >= 0,
        amount_in >= 0,
        0 <= fee_bps <= MAX_FEE_BPS,
        priced_reserve_in(reserve_in, amount_in, fee_bps) > 0,
    ensures
        0 <= amount_in_after_fee(amount_in, fee_bps) <= amount_in,
        0 <= reserve_out_after(reserve_in, reserve_out, amount_in, fee_bps) <= reserve_out,
        0 <= swap_amount_out(reserve_in, reserve_out, amount_in, fee_bps) <= reserve_out,
{
    let kept_bps = MAX_FEE_BPS - fee_bps;
    assert(0 <= amount_in * kept_bps <= amount_in * 10_000) by (nonlinear_arith)
        requires
            amount_in >= 0,
            0 <= kept_bps <= 10_000,
    ;
    let net_in = amount_in_after_fee(amount_in, fee_bps);
    let product = reserve_in * reserve_out;
    let priced = reserve_in + net_in;
    assert(product >= 0) by (nonlinear_arith)
        requires
            reserve_in >= 0,
            reserve_out >= 0,
            product == reserve_in * reserve_out,
    ;
    lemma_div_pos_is_pos(product, priced);
    if reserve_in == 0 {
        assert(product == 0) by (nonlinear_arith)
            requires
                reserve_in == 0,
                product == reserve_in * reserve_out,
        ;
    } else {
        lemma_div_is_ordered_by_denominator(product, reserve_in, priced);
        lemma_div_multiples_vanish(reserve_out, reserve_in);
    }
}

impl Swap {
    /// Pays `amount_in` of one asset into the pool, X where `is_x_in`, and
    /// takes the other asset out, at least `min_out` of it.
    ///
    /// The fee is taken off the amount paid in before the price is computed,
    /// and stays in the pool: the reserve of the asset paid in grows by the
    /// whole `amount_in`. On success the reserves are updated and the
    /// instructions returned move the two assets. On failure the pool is as
    /// it was.
    pub fn swap(&mut self, amount_in: u64, min_out: u64, is_x_in: bool) -> (res: Result<
        Vec<LedgerInstruction>,
        ErrorCode,
    >)
        ensures
            match spec_swap(old(self).pool, amount_in, min_out, is_x_in) {
                Ok(amount_out) => {
                    &&& res matches Ok(issued) && issued@ == swap_instructions(
                        amount_in,
                        amount_out,
                        is_x_in,
                    )
                    &&& amount_out == swap_amount_out(
                        old(self).pool.reserve_in(is_x_in) as int,
                        old(self).pool.reserve_out(is_x_in) as int,
                        amount_in as int,
                        old(self).pool.config.fees as int,
                    )
                    &&& final(self).pool == after_swap(
                        old(self).pool,
                        amount_in,
                        amount_out,
                        is_x_in,
                    )
                    &&& final(self).pool.reserve_in(is_x_in) == old(self).pool.reserve_in(is_x_in)
                        + amount_in
                    &&& final(self).pool.reserve_out(is_x_in) == old(self).pool.reserve_out(
                        is_x_in,
                    ) - amount_out
                    &&& final(self).pool.lp_supply == old(self).pool.lp_supply
                },
                Err(code) => {
                    &&& res matches Err(refused) && refused == code
                    &&& *final(self) == *old(self)
                },
            },
    {
        if amount_in == 0 {
            return Err(ErrorCode::InvalidAmount);
        }
        let fees: u16 = self.pool.config.fees;
        if fees > MAX_FEE_BPS {
            return Err(ErrorCode::Overflow);
        }
        let (reserve_in, reserve_out): (u64, u64) = if is_x_in {
            (self.pool.reserve_x, self.pool.reserve_y)
        } else {
            (self.pool.reserve_y, self.pool.reserve_x)
        };
        let kept_bps: u128 = (MAX_FEE_BPS - fees) as u128;
        proof {
            assert(amount_in * kept_bps <= u128::MAX) by (nonlinear_arith)
                requires
                    0 <= amount_in <= u64::MAX,
                    0 <= kept_bps <= 10_000,
            ;
            assert(reserve_in * reserve_out <= u128::MAX) by (nonlinear_arith)
                requires
                    0 <= reserve_in <= u64::MAX,
                    0 <= reserve_out <= u64::MAX,
            ;
        }
        let net_in: u128 = amount_in as u128 * kept_bps / (MAX_FEE_BPS as u128);
        let product: u128 = reserve_in as u128 * reserve_out as u128;
        proof {
            if reserve_in + net_in > 0 {
                lemma_swap_amount_out_range(
                    reserve_in as int,
                    reserve_out as int,
                    amount_in as int,
                    fees as int,
                );
            }
        }
        let priced: u128 = reserve_in as u128 + net_in;
        if priced == 0 {
            return Err(ErrorCode::Overflow);
        }
        let amount_out: u64 = (reserve_out as u128 - product / priced) as u64;
        if amount_out < min_out {
            return Err(ErrorCode::SlippageExceeded);
        }
        let reserve_in_after: u64 = match reserve_in.checked_add(amount_in) {
            Some(sum) => sum,
            None => {
                return Err(ErrorCode::Overflow);
            },
        };
        let reserve_out_after: u64 = reserve_out - amount_out;
        if is_x_in {
            self.pool.reserve_x = reserve_in_after;
            self.pool.reserve_y = reserve_out_after;
        } else {
            self.pool.reserve_y = reserve_in_after;
            self.pool.reserve_x = reserve_out_after;
        }

        let mut issued: Vec<LedgerInstruction> = Vec::new();
        issued.push(self.transfer_in(Asset::pick(is_x_in), amount_in));
        issued.push(self.transfer_out(Asset::pick(!is_x_in), amount_out));
        Ok(issued)
    }

    /// The instruction that moves `amount` of `asset` from the trader into
    /// the pool's custody.
    pub fn transfer_in(&self, asset: Asset, amount: u64) -> (res: LedgerInstruction)
        ensures
            res == (LedgerInstruction::Debit { asset, amount }),
    {
        LedgerInstruction::Debit { asset, amount }
    }

    /// The instruction that moves `amount` of `asset` out of the pool's
    /// custody to the trader.
    pub fn transfer_out(&self, asset: Asset, amount: u64) -> (res: LedgerInstruction)
        ensures
            res == (LedgerInstruction::Credit { asset, amount }),
    {
        LedgerInstruction::Credit { asset, amount }
    }
}

} // verus!
