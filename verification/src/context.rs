//! The operations on a pool, each with the values it reads and changes, and
//! what holds of them together.

pub mod deposit;
pub mod error;
pub mod funding;
pub mod initialize;
pub mod ledger;
pub mod price;
pub mod round_trip;
pub mod swap;
pub mod withdraw;

pub use deposit::Deposit;
pub use error::ErrorCode;
pub use initialize::InitializeConfig;
pub use initialize::InitializeConfigBumps;
pub use ledger::Asset;
pub use ledger::LedgerInstruction;
pub use swap::Swap;
pub use withdraw::Withdraw;
