//! Which token of a pair is the quote and which the base.

use crate::dex::tokens::Token;
use crate::text::{lowercase_of, str_before, text_before, to_lowercase};
use vstd::prelude::*;
use vstd::string::*;

verus! {

/// A pair of tokens seen as a market: the quote it is priced in, the base that
/// is priced, and whether the order buys the base.
#[derive(Debug, Clone)]
pub struct Market {
    pub quotes: Vec<String>,
    pub quote: String,
    pub base: String,
    pub buy: bool,
}

/// The symbols that are taken as quote, most preferred first.
pub open spec fn quote_priority() -> Seq<Seq<char>> {
    seq!["usdc"@, "usdt"@, "dai"@, "wbtc"@, "eth"@, "weth"@, "steth"@]
}

/// `i` is the first place of `symbol` in `quotes`.
pub open spec fn first_match(quotes: Seq<Seq<char>>, symbol: Seq<char>, i: int) -> bool {
    &&& 0 <= i < quotes.len()
    &&& quotes[i] == symbol
    &&& forall|j: int| 0 <= j < i ==> #[trigger] quotes[j] != symbol
}

/// The texts of a list of strings.
pub open spec fn texts(strings: Seq<String>) -> Seq<Seq<char>> {
    strings.map_values(|s: String| s@)
}

/// The first place of `symbol` in `quotes`, if it has one.
pub open spec fn rank_of(quotes: Seq<Seq<char>>, symbol: Seq<char>) -> Option<int> {
    if exists|i: int| first_match(quotes, symbol, i) {
        Some(choose|i: int| first_match(quotes, symbol, i))
    } else {
        None
    }
}

/// Quote, base and direction of a pair, given the lower-case forms of its two
/// symbols. The token that stands earlier in `quotes` is the quote; a token that
/// stands there at all goes before one that does not; where both have the same
/// standing the sell token is the quote, unless neither stands there and the buy
/// token sorts first. The direction is true exactly when the sell token is the
/// quote.
pub open spec fn orientation(
    quotes: Seq<Seq<char>>,
    buy_lower: Seq<char>,
    sell_lower: Seq<char>,
    buy_token: Seq<char>,
    sell_token: Seq<char>,
) -> (Seq<char>, Seq<char>, bool) {
    let buy_is_quote = match (rank_of(quotes, buy_lower), rank_of(quotes, sell_lower)) {
        (Some(buy_rank), Some(sell_rank)) => buy_rank < sell_rank,
        (Some(_), None) => true,
        (None, Some(_)) => false,
        (None, None) => text_before(buy_token, sell_token),
    };
    if buy_is_quote {
        (buy_token, sell_token, false)
    } else {
        (sell_token, buy_token, true)
    }
}

/// The first place of `symbol` in `quotes`.
pub fn quote_rank(quotes: &Vec<String>, symbol: &String) -> (r: Option<usize>)
    ensures
        match r {
            Some(i) => rank_of(texts(quotes@), symbol@) == Some(i as int),
            None => rank_of(texts(quotes@), symbol@) is None,
        },
{
    let ghost list = texts(quotes@);
    let mut i: usize = 0;
    while i < quotes.len()
        invariant
            i <= quotes.len(),
            list == texts(quotes@),
            forall|j: int| 0 <= j < i ==> #[trigger] list[j] != symbol@,
        decreases quotes.len() - i,
    {
        assert(list[i as int] == quotes@[i as int]@);
        if quotes[i] == *symbol {
            proof {
                assert(first_match(list, symbol@, i as int));
                let k = choose|k: int| first_match(list, symbol@, k);
                if k < i {
                    assert(list[k] != symbol@);
                } else if i < k {
                    assert(list[i as int] != symbol@);
                }
            }
            return Some(i);
        }
        i += 1;
    }
    proof {
        if exists|k: int| first_match(list, symbol@, k) {
            let k = choose|k: int| first_match(list, symbol@, k);
            assert(list[k] != symbol@);
        }
    }
    None
}

/// Quote, base and direction of a pair whose symbols have the lower-case forms
/// `buy_lower` and `sell_lower`.
pub fn orient(
    quotes: &Vec<String>,
    buy_token: &str,
    sell_token: &str,
    buy_lower: &String,
    sell_lower: &String,
) -> (r: (String, String, bool))
    ensures
        (r.0@, r.1@, r.2) == orientation(
            texts(quotes@),
            buy_lower@,
            sell_lower@,
            buy_token@,
            sell_token@,
        ),
{
    let buy_index = quote_rank(quotes, buy_lower);
    let sell_index = quote_rank(quotes, sell_lower);
    let buy_is_quote = match (buy_index, sell_index) {
        (Some(bi), Some(si)) => bi < si,
        (Some(_), None) => true,
        (None, Some(_)) => false,
        (None, None) => str_before(buy_token, sell_token),
    };
    if buy_is_quote {
        (String::from_str(buy_token), String::from_str(sell_token), false)
    } else {
        (String::from_str(sell_token), String::from_str(buy_token), true)
    }
}

impl Market {
    /// The market of an order that gives `sell_token` for `buy_token`, by the
    /// usual preference of quotes.
    pub fn new(buy_token: &Token, sell_token: &Token) -> (r: Market)
        ensures
            texts(r.quotes@) == quote_priority(),
            (r.quote@, r.base@, r.buy) == orientation(
                quote_priority(),
                lowercase_of(buy_token.symbol@),
                lowercase_of(sell_token.symbol@),
                buy_token.symbol@,
                sell_token.symbol@,
            ),
    {
        let mut quotes: Vec<String> = Vec::new();
        quotes.push(String::from_str("usdc"));
        quotes.push(String::from_str("usdt"));
        quotes.push(String::from_str("dai"));
        quotes.push(String::from_str("wbtc"));
        quotes.push(String::from_str("eth"));
        quotes.push(String::from_str("weth"));
        quotes.push(String::from_str("steth"));
        assert(texts(quotes@) =~= quote_priority());
        let (quote, base, buy) = Market::get_quote_and_base(
            &quotes,
            buy_token.symbol.as_str(),
            sell_token.symbol.as_str(),
        );
        Market { quotes, quote, base, buy }
    }

    /// Quote, base and direction of a pair. Letter case does not matter for a
    /// symbol's place in `quotes`; the symbols are returned as they were given.
    pub fn get_quote_and_base(quotes: &Vec<String>, buy_token: &str, sell_token: &str) -> (r: (
        String,
        String,
        bool,
    ))
        ensures
            (r.0@, r.1@, r.2) == orientation(
                texts(quotes@),
                lowercase_of(buy_token@),
                lowercase_of(sell_token@),
                buy_token@,
                sell_token@,
            ),
    {
        let buy_lower = to_lowercase(buy_token);
        let sell_lower = to_lowercase(sell_token);
        orient(quotes, buy_token, sell_token, &buy_lower, &sell_lower)
    }
}

} // verus!
