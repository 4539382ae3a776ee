//! Deposit: assets in, new shares out.

use crate::constant_product_curve::constant_product::spec_give_lp_take_xy;
use crate::constant_product_curve::constant_product::ConstantProductCurve;
use crate::constant_product_curve::constant_product::CurveError;
use crate::constant_product_curve::constant_product::XYAmounts;
use crate::context::error::ErrorCode;
use crate::context::ledger::Asset;
use crate::context::ledger::LedgerInstruction;
use crate::states::pool::PoolState;
use vstd::prelude::*;

verus! {

/// What a deposit works on.
#[derive(Debug, Clone, Copy, PartialEq, Eq)]
pub struct Deposit {
    pub pool: PoolState,
}

/// A deposit into this pool sets the price: no share is outstanding and the
/// pool holds no X.
pub open spec fn is_first_deposit(pool: PoolState) -> bool {
    pool.lp_supply == 0 && pool.reserve_x == 0
}

/// The amounts that `amount` new shares cost: the ceilings themselves for the
/// first deposit, after that what the curve asks.
pub open spec fn deposit_amounts(pool: PoolState, amount: u64, max_x: u64, max_y: u64) -> Result<
    XYAmounts,
    CurveError,
> {
    if is_first_deposit(pool) {
        Ok(XYAmounts { x: max_x, y: max_y })
    } else {
        spec_give_lp_take_xy(pool.reserve_x, pool.reserve_y, pool.lp_supply, amount, pool.precision)
    }
}

/// Whether a deposit goes through, and with which amounts: the amounts that
/// the depositor pays, or the reason for refusing.
pub open spec fn spec_deposit(pool: PoolState, amount: u64, max_x: u64, max_y: u64) -> Result<
    XYAmounts,
    ErrorCode,
> {
    if amount == 0 {
        Err(ErrorCode::InvalidAmount)
    } else {
        match deposit_amounts(pool, amount, max_x, max_y) {
            Err(_) => Err(ErrorCode::Overflow),
            Ok(given) => {
                if given.x > max_x || given.y > max_y {
                    Err(ErrorCode::SlippageExceeded)
                } else if pool.reserve_x + given.x > u64::MAX || pool.reserve_y + given.y
                    > u64::MAX || pool.lp_supply + amount > u64::MAX {
                    Err(ErrorCode::Overflow)
                } else {
                    Ok(given)
                }
            },
        }
    }
}

/// The pool after a deposit of `given` for `amount` new shares.
pub open spec fn after_deposit(pool: PoolState, given: XYAmounts, amount: u64) -> PoolState {
    PoolState {
        reserve_x: (pool.reserve_x + given.x) as u64,
        reserve_y: (pool.reserve_y + given.y) as u64,
        lp_supply: (pool.lp_supply + amount) as u64,
        ..pool
    }
}

/// What a deposit of `given` for `amount` new shares asks of the ledger: both
/// assets from the depositor, then the shares to the depositor.
pub open spec fn deposit_instructions(given: XYAmounts, amount: u64) -> Seq<LedgerInstruction> {
    seq![
        LedgerInstruction::Debit { asset: Asset::X, amount: given.x },
        LedgerInstruction::Debit { asset: Asset::Y, amount: given.y },
        LedgerInstruction::Mint { amount },
    ]
}

impl Deposit {
    /// Takes in assets for `amount` new shares, at most `max_x` of X and
    /// `max_y` of Y.
    ///
    /// The first deposit into a pool pays exactly `max_x` and `max_y` and so
    /// sets the price. Every later one pays what the curve asks for the
    /// shares. On success the reserves have grown by the amounts paid and the
    /// share supply by `amount`, and the instructions returned move the
    /// assets and mint the shares. On failure the pool is as it was.
    pub fn deposit(&mut self, amount: u64, max_x: u64, max_y: u64) -> (res: Result<
        Vec<LedgerInstruction>,
        ErrorCode,
    >)
        ensures
            match spec_deposit(old(self).pool, amount, max_x, max_y) {
                Ok(given) => {
                    &&& res matches Ok(issued) && issued@ == deposit_instructions(given, amount)
                    &&& final(self).pool == after_deposit(old(self).pool, given, amount)
                    &&& final(self).pool.reserve_x == old(self).pool.reserve_x + given.x
                    &&& final(self).pool.reserve_y == old(self).pool.reserve_y + given.y
                    &&& final(self).pool.lp_supply == old(self).pool.lp_supply + amount
                },
                Err(code) => {
                    &&& res matches Err(refused) && refused == code
                    &&& *final(self) == *old(self)
                },
            },
    {
        if amount == 0 {
            return Err(ErrorCode::InvalidAmount);
        }
        let given: XYAmounts = if self.pool.lp_supply == 0 && self.pool.reserve_x == 0 {
            XYAmounts { x: max_x, y: max_y }
        } else {
            match ConstantProductCurve::give_lp_take_xy(
                self.pool.reserve_x,
                self.pool.reserve_y,
                self.pool.lp_supply,
                amount,
                self.pool.precision,
            ) {
                Ok(given) => given,
                Err(_) => {
                    return Err(ErrorCode::Overflow);
                },
            }
        };
        if given.x > max_x || given.y > max_y {
            return Err(ErrorCode::SlippageExceeded);
        }
        let reserve_x: u64 = match self.pool.reserve_x.checked_add(given.x) {
            Some(sum) => sum,
            None => {
                return Err(ErrorCode::Overflow);
            },
        };
        let reserve_y: u64 = match self.pool.reserve_y.checked_add(given.y) {
            Some(sum) => sum,
            None => {
                return Err(ErrorCode::Overflow);
            },
        };
        let lp_supply: u64 = match self.pool.lp_supply.checked_add(amount) {
            Some(sum) => sum,
            None => {
                return Err(ErrorCode::Overflow);
            },
        };
        self.pool.reserve_x = reserve_x;
        self.pool.reserve_y = reserve_y;
        self.pool.lp_supply = lp_supply;

        let mut issued: Vec<LedgerInstruction> = Vec::new();
        issued.push(self.deposit_token(given.x, true));
        issued.push(self.deposit_token(given.y, false));
        issued.push(self.mint_lp_token(amount));
        Ok(issued)
    }

    /// The instruction that moves `amount` of one asset, X where `is_x`, from
    /// the depositor into the pool's custody.
    pub fn deposit_token(&self, amount: u64, is_x: bool) -> (res: LedgerInstruction)
        ensures
            res == (LedgerInstruction::Debit { asset: Asset::pick(is_x), amount }),
    {
        LedgerInstruction::Debit { asset: Asset::pick(is_x), amount }
    }

    /// The instruction that issues `amount` new shares to the depositor.
    pub fn mint_lp_token(&self, amount: u64) -> (res: LedgerInstruction)
        ensures
            res == (LedgerInstruction::Mint { amount }),
    {
        LedgerInstruction::Mint { amount }
    }
}

} // verus!
