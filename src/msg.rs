//! Commands, queries and their answers.
use vstd::prelude::*;

use crate::coin::Coin;

verus! {

/// Setting up the library takes no parameters.
pub struct InstantiateMsg {}

/// A command that changes the registry. The coins that come with it are in
/// the caller's `MessageInfo`.
pub enum ExecuteMsg {
    /// Creates a pool under `name` from the two coins supplied.
    CreatePool { name: String },
    /// Deposits the coins supplied into a pool.
    AddFunds { pool_id: String },
    /// Pays out `amount` from a pool for the one coin supplied.
    SwapTokens { pool_id: String, amount: Coin },
}

/// A read of the registry.
pub enum QueryMsg {
    /// The reserves of a pool.
    GetFunds { id: String },
    /// The price of one unit of `denom1` in units of `denom2` in a pool.
    GetPrice { pool_id: String, denom1: String, denom2: String },
}

/// The reserves of a pool, in their order.
pub struct FundsResponse {
    pub funds: Vec<Coin>,
}

/// A floor-divided reserve ratio.
pub struct PriceResponse {
    pub price: u128,
}

/// The answer to a query.
pub enum QueryResponse {
    Funds(FundsResponse),
    Price(PriceResponse),
}

} // verus!
