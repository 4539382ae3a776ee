//! Initialize: a new, empty pool for a pair of assets.

use crate::constant_product_curve::constant_product::lemma_scaling_factor_range;
use crate::context::error::ErrorCode;
use crate::states::config::Config;
use crate::states::config::Key;
use crate::states::pool::PoolState;
use crate::states::pool::MAX_FEE_BPS;
use vstd::prelude::*;

verus! {

/// What the creation of a pool works on: the two assets, and the number of
/// decimal digits of the share token, which becomes the precision of the
/// pool's curve.
#[derive(Debug, Clone, Copy, PartialEq, Eq)]
pub struct InitializeConfig {
    pub mint_x: Key,
    pub mint_y: Key,
    pub mint_lp_decimals: u8,
}

/// The bump bytes of the two addresses that the ledger derives for a pool.
#[derive(Debug, Clone, Copy, PartialEq, Eq)]
pub struct InitializeConfigBumps {
    pub config: u8,
    pub mint_lp: u8,
}

impl InitializeConfig {
    /// The new pool: empty, with the fee `fees` in basis points and the
    /// administrator `authority`, if there is one.
    ///
    /// A fee above the whole amount is refused as an invalid amount, so no
    /// pool is made with one.
    pub fn init(
        &self,
        fees: u16,
        authority: Option<Key>,
        bumps: InitializeConfigBumps,
    ) -> (res: Result<PoolState, ErrorCode>)
        ensures
            fees > MAX_FEE_BPS ==> res == Err::<PoolState, ErrorCode>(ErrorCode::InvalidAmount),
            fees <= MAX_FEE_BPS ==> (res matches Ok(pool) && pool.is_empty() && pool.precision
                == self.mint_lp_decimals && pool.config == (Config {
                mint_x: self.mint_x,
                mint_y: self.mint_y,
                fees,
                my_bump: bumps.config,
                lp_bump: bumps.mint_lp,
                authority,
            }) && pool.config.fees <= MAX_FEE_BPS && (pool.wf() <==> self.mint_lp_decimals
                <= 38)),
    {
        if fees > MAX_FEE_BPS {
            return Err(ErrorCode::InvalidAmount);
        }
        proof {
            lemma_scaling_factor_range(self.mint_lp_decimals as u32);
        }
        Ok(
            PoolState {
                config: Config {
                    authority,
                    fees,
                    mint_x: self.mint_x,
                    mint_y: self.mint_y,
                    my_bump: bumps.config,
                    lp_bump: bumps.mint_lp,
                },
                precision: self.mint_lp_decimals as u32,
                reserve_x: 0,
                reserve_y: 0,
                lp_supply: 0,
            },
        )
    }
}

} // verus!
