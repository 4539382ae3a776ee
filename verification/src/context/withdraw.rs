//! Withdraw: shares in, assets out.

use crate::constant_product_curve::constant_product::spec_take_lp_give_xy;
use crate::constant_product_curve::constant_product::ConstantProductCurve;
use crate::constant_product_curve::constant_product::XYAmounts;
use crate::context::error::ErrorCode;
use crate::context::ledger::Asset;
use crate::context::ledger::LedgerInstruction;
use crate::states::pool::PoolState;
use vstd::prelude::*;

verus! {

/// What a withdrawal works on: the pool, and the number of shares that the
/// one who withdraws holds.
#[derive(Debug, Clone, Copy, PartialEq, Eq)]
pub struct Withdraw {
    pub pool: PoolState,
    pub user_lp: u64,
}

/// Whether a withdrawal goes through, and with which amounts: the amounts
/// paid out, or the reason for refusing.
pub open spec fn spec_withdraw(
    pool: PoolState,
    user_lp: u64,
    min_x: u64,
    min_y: u64,
    lp_amount: u64,
) -> Result<XYAmounts, ErrorCode> {
    if lp_amount == 0 || lp_amount > pool.lp_supply {
        Err(ErrorCode::InvalidAmount)
    } else if lp_amount > user_lp {
        Err(ErrorCode::InsufficientShares)
    } else {
        match spec_take_lp_give_xy(
            pool.reserve_x,
            pool.reserve_y,
            pool.lp_supply,
            lp_amount,
            pool.precision,
        ) {
            Err(_) => Err(ErrorCode::Overflow),
            Ok(taken) => {
                if taken.x < min_x || taken.y < min_y {
                    Err(ErrorCode::SlippageExceeded)
                } else {
                    Ok(taken)
                }
            },
        }
    }
}

/// The pool after `taken` was paid out for `lp_amount` retired shares.
pub open spec fn after_withdraw(pool: PoolState, taken: XYAmounts, lp_amount: u64) -> PoolState {
    PoolState {
        reserve_x: (pool.reserve_x - taken.x) as u64,
        reserve_y: (pool.reserve_y - taken.y) as u64,
        lp_supply: (pool.lp_supply - lp_amount) as u64,
        ..pool
    }
}

/// What a withdrawal of `taken` for `lp_amount` retired shares asks of the
/// ledger: the shares from the one who withdraws, then both assets to them.
pub open spec fn withdraw_instructions(taken: XYAmounts, lp_amount: u64) -> Seq<LedgerInstruction> {
    seq![
        LedgerInstruction::Burn { amount: lp_amount },
        LedgerInstruction::Credit { asset: Asset::X, amount: taken.x },
        LedgerInstruction::Credit { asset: Asset::Y, amount: taken.y },
    ]
}

impl Withdraw {
    /// Retires `lp_amount` shares and pays out their part of both reserves,
    /// at least `min_x` of X and `min_y` of Y.
    ///
    /// A pool without shares has nothing to pay out, so every withdrawal from
    /// it is refused as an invalid amount. On success the reserves have
    /// shrunk by the amounts paid out, and the share supply and the holder's
    /// shares by `lp_amount`; the instructions returned burn the shares and
    /// move the assets. On failure nothing has changed.
    pub fn withdraw(&mut self, min_x: u64, min_y: u64, lp_amount: u64) -> (res: Result<
        Vec<LedgerInstruction>,
        ErrorCode,
    >)
        ensures
            match spec_withdraw(old(self).pool, old(self).user_lp, min_x, min_y, lp_amount) {
                Ok(taken) => {
                    &&& res matches Ok(issued) && issued@ == withdraw_instructions(
                        taken,
                        lp_amount,
                    )
                    &&& final(self).pool == after_withdraw(old(self).pool, taken, lp_amount)
                    &&& final(self).pool.reserve_x == old(self).pool.reserve_x - taken.x
                    &&& final(self).pool.reserve_y == old(self).pool.reserve_y - taken.y
                    &&& final(self).pool.lp_supply == old(self).pool.lp_supply - lp_amount
                    &&& final(self).user_lp == old(self).user_lp - lp_amount
                },
                Err(code) => {
                    &&& res matches Err(refused) && refused == code
                    &&& *final(self) == *old(self)
                },
            },
    {
        if lp_amount == 0 || lp_amount > self.pool.lp_supply {
            return Err(ErrorCode::InvalidAmount);
        }
        if lp_amount > self.user_lp {
            return Err(ErrorCode::InsufficientShares);
        }
        let taken: XYAmounts = match ConstantProductCurve::take_lp_give_xy(
            self.pool.reserve_x,
            self.pool.reserve_y,
            self.pool.lp_supply,
            lp_amount,
            self.pool.precision,
        ) {
            Ok(taken) => taken,
            Err(_) => {
                return Err(ErrorCode::Overflow);
            },
        };
        if taken.x < min_x || taken.y < min_y {
            return Err(ErrorCode::SlippageExceeded);
        }
        self.pool.reserve_x = self.pool.reserve_x - taken.x;
        self.pool.reserve_y = self.pool.reserve_y - taken.y;
        self.pool.lp_supply = self.pool.lp_supply - lp_amount;
        self.user_lp = self.user_lp - lp_amount;

        let mut issued: Vec<LedgerInstruction> = Vec::new();
        issued.push(self.burn_lp_token(lp_amount));
        issued.push(self.withdraw_token(true, taken.x));
        issued.push(self.withdraw_token(false, taken.y));
        Ok(issued)
    }

    /// The instruction that moves `amount` of one asset, X where `is_x`, out
    /// of the pool's custody to the one who withdraws.
    fn withdraw_token(&self, is_x: bool, amount: u64) -> (res: LedgerInstruction)
        ensures
            res == (LedgerInstruction::Credit { asset: Asset::pick(is_x), amount }),
    {
        LedgerInstruction::Credit { asset: Asset::pick(is_x), amount }
    }

    /// The instruction that retires `amount` shares of the one who
    /// withdraws.
    fn burn_lp_token(&self, amount: u64) -> (res: LedgerInstruction)
        ensures
            res == (LedgerInstruction::Burn { amount }),
    {
        LedgerInstruction::Burn { amount }
    }
}

} // verus!
