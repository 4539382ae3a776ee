//! What an operation asks of the ledger that holds the tokens.
//!
//! The pool decides and the ledger moves: an operation that succeeds returns
//! the instructions that the ledger is to carry out for it, in order and as
//! one unit.

use vstd::prelude::*;

verus! {

/// One of the two assets of a pool.
#[derive(Debug, Clone, Copy, PartialEq, Eq)]
pub enum Asset {
    X,
    Y,
}

/// One step that the ledger carries out for the user of an operation.
#[derive(Debug, Clone, Copy, PartialEq, Eq)]
pub enum LedgerInstruction {
    /// Move `amount` of `asset` from the user into the pool's custody; the
    /// user signs.
    Debit { asset: Asset, amount: u64 },
    /// Move `amount` of `asset` out of the pool's custody to the user; the
    /// pool signs.
    Credit { asset: Asset, amount: u64 },
    /// Issue `amount` new shares to the user; the pool signs.
    Mint { amount: u64 },
    /// Retire `amount` of the user's shares; the user signs.
    Burn { amount: u64 },
}

impl Asset {
    /// X where `is_x`, else Y.
    pub open spec fn spec_pick(is_x: bool) -> Asset {
        if is_x {
            Asset::X
        } else {
            Asset::Y
        }
    }

    /// X where `is_x`, else Y.
    #[verifier::when_used_as_spec(spec_pick)]
    pub fn pick(is_x: bool) -> (asset: Asset)
        ensures
            asset == Asset::spec_pick(is_x),
    {
        if is_x {
            Asset::X
        } else {
            Asset::Y
        }
    }
}

} // verus!
