//! Token records and where they come from.
//!
//! A record is looked for in the cache first. A handful of addresses that stand
//! for a chain's native coin are answered from a fixed table; every other
//! address is asked of the chain. Whatever was not in the cache is put there.

use crate::text::{decimal, decimal_of, lowercase_of, to_lowercase};
use vstd::prelude::*;
use vstd::string::*;

verus! {

/// What is known of a token contract.
#[derive(Clone, Debug, PartialEq, Eq)]
pub struct Token {
    pub addr: String,
    pub symbol: String,
    pub decimals: u8,
}

/// A token record as plain values.
pub struct TokenView {
    pub addr: Seq<char>,
    pub symbol: Seq<char>,
    pub decimals: u8,
}

impl View for Token {
    type V = TokenView;

    open spec fn view(&self) -> TokenView {
        TokenView { addr: self.addr@, symbol: self.symbol@, decimals: self.decimals }
    }
}

impl Token {
    /// An independent copy.
    pub fn duplicate(&self) -> (r: Token)
        ensures
            r@ == self@,
    {
        Token { addr: self.addr.clone(), symbol: self.symbol.clone(), decimals: self.decimals }
    }
}

/// The symbol that the fixed table holds for an address in lower case.
pub open spec fn known_symbol(lowered: Seq<char>) -> Option<Seq<char>> {
    if lowered == "0xeeeeeeeeeeeeeeeeeeeeeeeeeeeeeeeeeeeeeeee"@ {
        Some("ETH"@)
    } else if lowered == "0x0000000000000000000000000000000000000000"@ {
        Some("ETH"@)
    } else if lowered == "0x0d88ed6e74bbfd96b831231638b66c05571e824f"@ {
        Some("AVT"@)
    } else {
        None
    }
}

/// The record of the fixed table for `address`, whose lower-case form is
/// `lowered`: the address as it was given, the table's symbol, 18 decimals.
pub fn known_token_for(address: &str, lowered: &String) -> (r: Option<Token>)
    ensures
        match known_symbol(lowered@) {
            Some(symbol) => r matches Some(token) && token@ == (TokenView {
                addr: address@,
                symbol,
                decimals: 18,
            }),
            None => r is None,
        },
{
    let eth = String::from_str("0xeeeeeeeeeeeeeeeeeeeeeeeeeeeeeeeeeeeeeeee");
    let zero = String::from_str("0x0000000000000000000000000000000000000000");
    let avt = String::from_str("0x0d88ed6e74bbfd96b831231638b66c05571e824f");
    if *lowered == eth || *lowered == zero {
        Some(Token { addr: String::from_str(address), symbol: String::from_str("ETH"), decimals: 18 })
    } else if *lowered == avt {
        Some(Token { addr: String::from_str(address), symbol: String::from_str("AVT"), decimals: 18 })
    } else {
        None
    }
}

/// The record of the fixed table for `address`, if the table has one. Letter
/// case in the address does not matter.
pub fn known_token(address: &str) -> (r: Option<Token>)
    ensures
        match known_symbol(lowercase_of(address@)) {
            Some(symbol) => r matches Some(token) && token@ == (TokenView {
                addr: address@,
                symbol,
                decimals: 18,
            }),
            None => r is None,
        },
{
    let lowered = to_lowercase(address);
    known_token_for(address, &lowered)
}

/// The key of a token in the cache: the chain's number in decimal, a colon, and
/// the address as given.
pub open spec fn cache_key_of(chain_id: u64, address: Seq<char>) -> Seq<char> {
    decimal_of(chain_id as nat) + seq![':'] + address
}

/// The key under which the cache keeps the token at `address` on chain
/// `chain_id`.
pub fn cache_key(chain_id: u64, address: &str) -> (r: String)
    ensures
        r@ == cache_key_of(chain_id, address@),
{
    let mut key = decimal(chain_id);
    proof {
        reveal_strlit(":");
    }
    key.append(":");
    key.append(address);
    assert(key@ =~= cache_key_of(chain_id, address@));
    key
}

/// How a token is come by after the cache was asked.
#[derive(Debug)]
pub enum TokenPlan {
    /// The cache held the record: return it.
    Cached(Token),
    /// The fixed table holds the record: put it into the cache under `key` and
    /// return it. The chain is not asked.
    Known { key: String, token: Token },
    /// Ask the chain for the symbol and the decimals, then put the record into
    /// the cache under `key` and return it.
    AskChain { key: String },
}

/// Decides how the token at `address` on chain `chain_id` is come by, given what
/// the cache held under its key.
pub fn plan_token(chain_id: u64, address: &str, cached: Option<Token>) -> (r: TokenPlan)
    ensures
        match cached {
            Some(token) => r == TokenPlan::Cached(token),
            None => match known_symbol(lowercase_of(address@)) {
                Some(symbol) => {
                    &&& r matches TokenPlan::Known { key, token }
                    &&& key@ == cache_key_of(chain_id, address@)
                    &&& token@ == (TokenView { addr: address@, symbol, decimals: 18 })
                },
                None => r matches TokenPlan::AskChain { key } && key@ == cache_key_of(
                    chain_id,
                    address@,
                ),
            },
        },
{
    match cached {
        Some(token) => TokenPlan::Cached(token),
        None => {
            let key = cache_key(chain_id, address);
            match known_token(address) {
                Some(token) => TokenPlan::Known { key, token },
                None => TokenPlan::AskChain { key },
            }
        },
    }
}

/// The record of the token at `address` from what the chain answered.
pub fn token_from_chain(address: &str, symbol: String, decimals: u8) -> (r: Token)
    ensures
        r@ == (TokenView { addr: address@, symbol: symbol@, decimals }),
{
    Token { addr: String::from_str(address), symbol, decimals }
}

} // verus!
