//! Accounting core of a two-asset liquidity pool: a registry of named pools,
//! deposits that must match a pool's denominations, and swaps priced by the
//! floor ratio of the reserves.

pub mod coin;
pub mod conservation;
pub mod contract;
pub mod engine;
pub mod error;
pub mod msg;
pub mod state;
