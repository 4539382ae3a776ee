//! The part of a pool that is fixed when it is created.

use vstd::prelude::*;

verus! {

/// The identity of an asset or of an account on the ledger. The pool carries
/// such keys and never looks inside them.
pub type Key = [u8; 32];

/// A pool's fixed settings: the two assets it trades, its fee, who may
/// administer it, and the two bump bytes from which the ledger derives the
/// pool's own addresses.
#[derive(Debug, Clone, Copy, PartialEq, Eq)]
pub struct Config {
    pub mint_x: Key,
    pub mint_y: Key,
    /// The swap fee in basis points, taken from the amount paid in.
    pub fees: u16,
    pub my_bump: u8,
    pub lp_bump: u8,
    pub authority: Option<Key>,
}

} // verus!
