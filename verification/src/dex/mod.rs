//! Intent orders of an on-chain venue: token records, the orientation of a
//! pair, and the tracking of open orders between two polls.

use vstd::prelude::*;

pub mod intent_order;
pub mod market;
pub mod tokens;
pub mod uni_order;
pub mod uniswapx;

verus! {

/// Failure while looking up tokens or orders. Each variant but the first carries
/// the message of the service that failed.
#[derive(Clone, Debug, PartialEq, Eq)]
pub enum DexError {
    Error(String),
    Serde(String),
    Reqwest(String),
    UrlParseError(String),
    FromHexError(String),
    ContractError(String),
    RedisError(String),
}

} // verus!
