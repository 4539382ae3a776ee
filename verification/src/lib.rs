//! A constant-product market maker for one pair of assets.
//!
//! Two reserves, X and Y, are pooled; a share token stands for proportional
//! ownership of the pool. The crate holds the pricing and accounting rules:
//! the curve that converts shares into reserve amounts, and the deposit,
//! swap and withdraw transitions of a pool. Moving tokens is left to the
//! ledger that hosts the pool: an operation decides the amounts, updates the
//! pool's record and returns the instructions for the ledger, and its caller
//! has them carried out.
//!
//! Every operation either succeeds as a whole or is refused and changes
//! nothing. All arithmetic is done in 128 bits and checked before a result is
//! narrowed to 64 bits, so a refusal for overflow stands where a wrapped
//! number could have been.
//!
//! In deposits and withdrawals rounding favours those who stay in the pool:
//! what is paid in is rounded up and what is paid out is rounded down. A swap
//! follows the constant-product rule with the new reserve rounded down; the
//! product of the reserves after it is the product before, less what that
//! rounding loses, plus what the fee adds.

pub mod constant_product_curve;
pub mod context;
pub mod states;
