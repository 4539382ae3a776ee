//! Why an operation on a pool was refused.

use vstd::prelude::*;

verus! {

/// Why an operation was refused. A refused operation changes nothing.
#[derive(Debug, Clone, Copy, PartialEq, Eq)]
pub enum ErrorCode {
    /// A step of the arithmetic left the range of its integer type or had
    /// nothing to divide by. A fee above the whole amount and a precision
    /// whose scale does not fit are refused as such.
    Overflow,
    /// The amount asked for is zero, or more shares are to be retired than
    /// are outstanding.
    InvalidAmount,
    /// The computed amount is beyond the bound that the caller set.
    SlippageExceeded,
    /// More shares are to be retired than their holder has.
    InsufficientShares,
}

} // verus!
