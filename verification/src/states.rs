//! The records that a pool consists of.

pub mod config;
pub mod pool;

pub use config::Config;
pub use config::Key;
pub use pool::PoolState;
