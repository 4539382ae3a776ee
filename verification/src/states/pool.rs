//! The state of a pool: its settings, its two reserves and its share supply.

use crate::constant_product_curve::constant_product::scaling_factor;
use crate::states::config::Config;
use vstd::prelude::*;

verus! {

/// The largest fee, in basis points: the whole amount paid in.
pub const MAX_FEE_BPS: u16 = 10_000;

/// A pool of two assets.
#[derive(Debug, Clone, Copy, PartialEq, Eq)]
pub struct PoolState {
    pub config: Config,
    /// The number of decimal digits of the fixed-point ratios of the curve.
    pub precision: u32,
    /// The balance of asset X in the pool's custody.
    pub reserve_x: u64,
    /// The balance of asset Y in the pool's custody.
    pub reserve_y: u64,
    /// The number of shares outstanding.
    pub lp_supply: u64,
}

impl PoolState {
    /// The settings are in range: the fee is at most the whole amount, and
    /// the fixed-point scale fits in 128 bits.
    pub open spec fn wf(self) -> bool {
        &&& self.config.fees <= MAX_FEE_BPS
        &&& scaling_factor(self.precision) <= u128::MAX
    }

    /// Nothing is in the pool and no share is outstanding.
    pub open spec fn is_empty(self) -> bool {
        self.reserve_x == 0 && self.reserve_y == 0 && self.lp_supply == 0
    }

    /// Both reserves hold something and shares are outstanding.
    pub open spec fn is_funded(self) -> bool {
        self.reserve_x > 0 && self.reserve_y > 0 && self.lp_supply > 0
    }

    /// Whatever is in the pool belongs to shares: where no share is
    /// outstanding, both reserves are empty.
    pub open spec fn is_backed(self) -> bool {
        self.lp_supply == 0 ==> self.reserve_x == 0 && self.reserve_y == 0
    }

    /// The product of the two reserves.
    pub open spec fn product(self) -> int {
        self.reserve_x * self.reserve_y
    }

    /// The reserve that a swap pays into.
    pub open spec fn reserve_in(self, is_x_in: bool) -> u64 {
        if is_x_in {
            self.reserve_x
        } else {
            self.reserve_y
        }
    }

    /// The reserve that a swap pays out of.
    pub open spec fn reserve_out(self, is_x_in: bool) -> u64 {
        if is_x_in {
            self.reserve_y
        } else {
            self.reserve_x
        }
    }
}

} // verus!
