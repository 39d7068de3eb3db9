use barter::dex::intent_order::{
    intent_order_from_amounts, map_uni_order_to_intent_order, IntentOrderUpdate, ParsedAmounts,
};
use barter::dex::market::{orient, quote_rank, Market};
use barter::dex::tokens::{
    cache_key, known_token, known_token_for, plan_token, token_from_chain, Token, TokenPlan,
};
use barter::dex::uni_order::{Input, Output, Response, SettledAmount, UniOrder};
use barter::dex::uniswapx::{contains_hash, diff, filter_open_orders, vanished};
use barter::dex::DexError;
use barter::subscription::InstrumentKind;
use num_bigint::BigInt;

fn order(hash: &str) -> UniOrder {
    UniOrder {
        outputs: vec![Output {
            recipient: "0xrecipient".to_string(),
            start_amount: "2000000000".to_string(),
            end_amount: "1900000000".to_string(),
            token: "0xa0b86991c6218b36c1d19d4a2e9eb0ce3606eb48".to_string(),
        }],
        encoded_order: format!("encoded-{hash}"),
        signature: format!("signature-{hash}"),
        input: Input {
            end_amount: "1000000000000000000".to_string(),
            token: "0xC02aaA39b223FE8D0A0e5C4F27eAD9083C756Cc2".to_string(),
            start_amount: "1000000000000000000".to_string(),
        },
        settled_amounts: Some(vec![SettledAmount {
            token_out: "out".to_string(),
            amount_in: "1".to_string(),
            amount_out: "2".to_string(),
            token_in: "in".to_string(),
        }]),
        order_status: "open".to_string(),
        tx_hash: None,
        created_at: 1_700_000_000,
        chain_id: 1,
        order_hash: hash.to_string(),
        order_type: "Dutch".to_string(),
    }
}

fn hashes(orders: &Vec<UniOrder>) -> Vec<String> {
    orders.iter().map(|o| o.order_hash.clone()).collect()
}

fn token(symbol: &str, decimals: u8) -> Token {
    Token { addr: format!("0x{symbol}"), symbol: symbol.to_string(), decimals }
}

#[test]
fn filter_open_orders_returns_the_new_order_and_tracks_it() {
    let mut open = vec![order("A")];
    let new = vec![order("A"), order("B")];
    let filtered = filter_open_orders(&mut open, &new);
    assert_eq!(hashes(&filtered), vec!["B"]);
    assert_eq!(hashes(&open), vec!["A", "B"]);
    assert_eq!(filtered[0].encoded_order, "encoded-B");
    assert_eq!(filtered[0].outputs[0].start_amount, "2000000000");
    assert_eq!(filtered[0].settled_amounts.as_ref().unwrap()[0].amount_out, "2");
    assert_eq!(open[1].signature, "signature-B");
}

#[test]
fn filter_open_orders_drops_what_is_no_longer_listed() {
    let mut open = vec![order("A"), order("B"), order("C")];
    let new = vec![order("C"), order("D"), order("A")];
    let filtered = filter_open_orders(&mut open, &new);
    assert_eq!(hashes(&filtered), vec!["D"]);
    assert_eq!(hashes(&open), vec!["A", "C", "D"]);

    let filtered = filter_open_orders(&mut open, &vec![]);
    assert!(filtered.is_empty());
    assert!(open.is_empty());

    let filtered = filter_open_orders(&mut open, &vec![order("X"), order("Y")]);
    assert_eq!(hashes(&filtered), vec!["X", "Y"]);
    assert_eq!(hashes(&open), vec!["X", "Y"]);

    let filtered = filter_open_orders(&mut open, &vec![order("X"), order("Y")]);
    assert!(filtered.is_empty());
    assert_eq!(hashes(&open), vec!["X", "Y"]);
}

#[test]
fn diff_leaves_the_open_orders_alone() {
    let open = vec![order("A"), order("B")];
    let new = vec![order("C"), order("B"), order("C")];
    assert_eq!(hashes(&diff(&open, &new)), vec!["C", "C"]);
    assert_eq!(hashes(&vanished(&open, &new)), vec!["A"]);
    assert_eq!(hashes(&vanished(&open, &vec![])), vec!["A", "B"]);
    assert!(vanished(&open, &open).is_empty());
    assert_eq!(hashes(&open), vec!["A", "B"]);
    assert!(contains_hash(&open, &"B".to_string()));
    assert!(!contains_hash(&open, &"b".to_string()));
    let response = Response { orders: new };
    assert_eq!(response.orders.len(), 3);
}

#[test]
fn native_eth_is_answered_from_the_fixed_table() {
    let address = "0xEeeeeEeeeEeEeeEeEeEeeEEEeeeeEeeeeeeeEEeE";
    let plan = plan_token(1, address, None);
    match plan {
        TokenPlan::Known { key, token } => {
            assert_eq!(key, format!("1:{address}"));
            assert_eq!(
                token,
                Token { addr: address.to_string(), symbol: "ETH".to_string(), decimals: 18 }
            );
        }
        other => panic!("{:?}", other),
    }
    assert_eq!(
        known_token(address),
        Some(Token { addr: address.to_string(), symbol: "ETH".to_string(), decimals: 18 })
    );
}

#[test]
fn fixed_table_and_chain() {
    let zero = "0x0000000000000000000000000000000000000000";
    assert_eq!(known_token(zero).unwrap().symbol, "ETH");
    let avt = "0x0D88ED6E74bbFD96B831231638b66C05571e824F";
    let known = known_token(avt).unwrap();
    assert_eq!((known.addr.as_str(), known.symbol.as_str(), known.decimals), (avt, "AVT", 18));
    let usdc = "0xA0b86991c6218b36c1d19D4a2e9Eb0cE3606eB48";
    assert_eq!(known_token(usdc), None);
    // The lower-case form decides, not the address as written.
    assert_eq!(known_token_for(usdc, &usdc.to_lowercase()), None);
    assert_eq!(known_token_for(avt, &avt.to_string()), None);
    assert_eq!(known_token_for("anything", &zero.to_string()).unwrap().addr, "anything");

    match plan_token(137, usdc, None) {
        TokenPlan::AskChain { key } => assert_eq!(key, format!("137:{usdc}")),
        other => panic!("{:?}", other),
    }
    let cached = token("USDC", 6);
    match plan_token(1, zero, Some(cached.duplicate())) {
        TokenPlan::Cached(token) => assert_eq!(token, cached),
        other => panic!("{:?}", other),
    }
    assert_eq!(
        token_from_chain(usdc, "USDC".to_string(), 6),
        Token { addr: usdc.to_string(), symbol: "USDC".to_string(), decimals: 6 }
    );
}

#[test]
fn cache_key_is_chain_colon_address() {
    assert_eq!(cache_key(1, "0xabc"), "1:0xabc");
    assert_eq!(cache_key(0, ""), "0:");
    assert_eq!(cache_key(42161, "0xAbC"), "42161:0xAbC");
    assert_eq!(cache_key(u64::MAX, "x"), "18446744073709551615:x");
}

fn quotes() -> Vec<String> {
    ["usdc", "usdt", "dai", "wbtc", "eth", "weth", "steth"].iter().map(|s| s.to_string()).collect()
}

fn oriented(buy: &str, sell: &str) -> (String, String, bool) {
    Market::get_quote_and_base(&quotes(), buy, sell)
}

#[test]
fn quote_is_the_symbol_that_stands_first_in_the_list() {
    assert_eq!(oriented("USDC", "WETH"), ("USDC".to_string(), "WETH".to_string(), false));
    assert_eq!(oriented("WETH", "USDC"), ("USDC".to_string(), "WETH".to_string(), true));
    assert_eq!(oriented("dai", "usdt"), ("usdt".to_string(), "dai".to_string(), true));
    assert_eq!(oriented("Eth", "StETH"), ("Eth".to_string(), "StETH".to_string(), false));
    // The same symbol twice: the sell token is taken as the quote.
    assert_eq!(oriented("USDC", "usdc"), ("usdc".to_string(), "USDC".to_string(), true));
}

#[test]
fn a_listed_symbol_goes_before_one_that_is_not() {
    assert_eq!(oriented("wbtc", "PEPE"), ("wbtc".to_string(), "PEPE".to_string(), false));
    assert_eq!(oriented("PEPE", "wbtc"), ("wbtc".to_string(), "PEPE".to_string(), true));
}

#[test]
fn unlisted_symbols_go_by_their_order_as_written() {
    assert_eq!(oriented("AAVE", "UNI"), ("AAVE".to_string(), "UNI".to_string(), false));
    assert_eq!(oriented("UNI", "AAVE"), ("AAVE".to_string(), "UNI".to_string(), true));
    // Upper case sorts before lower case.
    assert_eq!(oriented("uni", "UNI"), ("UNI".to_string(), "uni".to_string(), true));
    assert_eq!(oriented("UNI", "UNI"), ("UNI".to_string(), "UNI".to_string(), true));
    assert_eq!(oriented("", "A"), ("".to_string(), "A".to_string(), false));
}

#[test]
fn rank_and_orientation_take_the_lower_case_forms_as_given() {
    assert_eq!(quote_rank(&quotes(), &"usdc".to_string()), Some(0));
    assert_eq!(quote_rank(&quotes(), &"steth".to_string()), Some(6));
    assert_eq!(quote_rank(&quotes(), &"USDC".to_string()), None);
    let twice = vec!["a".to_string(), "b".to_string(), "a".to_string()];
    assert_eq!(quote_rank(&twice, &"a".to_string()), Some(0));
    assert_eq!(quote_rank(&vec![], &"a".to_string()), None);
    // Without the lower-case form a listed symbol in capitals is not found.
    assert_eq!(
        orient(&quotes(), "WETH", "USDC", &"WETH".to_string(), &"USDC".to_string()),
        ("USDC".to_string(), "WETH".to_string(), true)
    );
    assert_eq!(
        orient(&quotes(), "WETH", "ZRX", &"WETH".to_string(), &"ZRX".to_string()),
        ("WETH".to_string(), "ZRX".to_string(), false)
    );
    assert_eq!(
        orient(&quotes(), "ZRX", "WETH", &"zrx".to_string(), &"weth".to_string()),
        ("WETH".to_string(), "ZRX".to_string(), true)
    );
}

#[test]
fn market_of_two_tokens() {
    let market = Market::new(&token("WETH", 18), &token("USDC", 6));
    assert_eq!(market.quotes, quotes());
    assert_eq!(market.quote, "USDC");
    assert_eq!(market.base, "WETH");
    assert!(market.buy);
    let market = Market::new(&token("USDC", 6), &token("WETH", 18));
    assert_eq!((market.quote.as_str(), market.base.as_str(), market.buy), ("USDC", "WETH", false));
}

#[test]
fn intent_order_reads_the_amounts_and_orients_them() {
    // Takes in WETH and pays out USDC: USDC is the quote, and the order buys.
    let uni_order = order("0xhash");
    let weth = token("WETH", 18);
    let usdc = token("USDC", 6);
    let intent =
        map_uni_order_to_intent_order(&uni_order, &weth, &usdc, IntentOrderUpdate::Opened).unwrap();
    assert_eq!(intent.event, IntentOrderUpdate::Opened);
    assert_eq!(intent.id, "0xhash");
    assert_eq!(intent.instrument.base, "USDC");
    assert_eq!(intent.instrument.quote, "WETH");
    assert_eq!(intent.instrument.kind, InstrumentKind::IntentOrder);
    assert!(intent.buy);
    assert_eq!(intent.input_start.units, "1000000000000000000".parse::<BigInt>().unwrap());
    assert_eq!(intent.input_start.decimals, 18);
    assert_eq!(intent.output_start.units, BigInt::from(2_000_000_000u64));
    assert_eq!(intent.output_start.decimals, 6);
    assert_eq!(intent.input_end.units, "1000000000000000000".parse::<BigInt>().unwrap());
    assert_eq!(intent.output_end.units, BigInt::from(1_900_000_000u64));
    assert_eq!(intent.amount_in, "1000000000000000000");
    assert_eq!(intent.amount_out, "2000000000");
    assert_eq!(intent.created_at, 1_700_000_000);
    assert_eq!(intent.order_type, "Dutch");
    assert_eq!(intent.signature, "signature-0xhash");
    assert_eq!(intent.encoded_order, "encoded-0xhash");
    assert_eq!(intent.amount().units, BigInt::from(2_000_000_000u64));
    let (numerator, denominator) = intent.start_ask();
    assert_eq!((numerator.decimals, denominator.decimals), (18, 6));
    let (numerator, denominator) = intent.end_ask();
    assert_eq!(numerator.units, "1000000000000000000".parse::<BigInt>().unwrap());
    assert_eq!(denominator.units, BigInt::from(1_900_000_000u64));

    // The other way round the order sells.
    let intent =
        map_uni_order_to_intent_order(&uni_order, &usdc, &weth, IntentOrderUpdate::Closed).unwrap();
    assert!(!intent.buy);
    assert_eq!(intent.event, IntentOrderUpdate::Closed);
    assert_eq!(intent.amount().units, "1000000000000000000".parse::<BigInt>().unwrap());
    assert_eq!(intent.amount().decimals, 6);
    let (numerator, denominator) = intent.start_ask();
    assert_eq!(numerator.units, BigInt::from(2_000_000_000u64));
    assert_eq!(denominator.units, "1000000000000000000".parse::<BigInt>().unwrap());
}

#[test]
fn amount_that_is_no_number_fails_the_order() {
    let weth = token("WETH", 18);
    let usdc = token("USDC", 6);
    for field in 0..4 {
        let mut uni_order = order("h");
        let bad = "12x4".to_string();
        match field {
            0 => uni_order.input.start_amount = bad,
            1 => uni_order.outputs[0].start_amount = bad,
            2 => uni_order.input.end_amount = bad,
            _ => uni_order.outputs[0].end_amount = bad,
        }
        let r = map_uni_order_to_intent_order(&uni_order, &weth, &usdc, IntentOrderUpdate::Opened);
        assert_eq!(r.unwrap_err(), DexError::Error("Failed to parse BigInt".to_string()));
    }
    let mut uni_order = order("h");
    uni_order.input.start_amount = "".to_string();
    assert!(map_uni_order_to_intent_order(&uni_order, &weth, &usdc, IntentOrderUpdate::Opened)
        .is_err());
    uni_order.input.start_amount = "-5".to_string();
    let intent =
        map_uni_order_to_intent_order(&uni_order, &weth, &usdc, IntentOrderUpdate::Opened).unwrap();
    assert_eq!(intent.input_start.units, BigInt::from(-5));
}

#[test]
fn intent_order_from_amounts_that_were_read() {
    let uni_order = order("h");
    let weth = token("WETH", 18);
    let usdc = token("USDC", 6);
    let amounts = ParsedAmounts {
        input_start: Some(BigInt::from(1)),
        output_start: Some(BigInt::from(2)),
        input_end: Some(BigInt::from(3)),
        output_end: Some(BigInt::from(4)),
    };
    let intent =
        intent_order_from_amounts(&uni_order, &weth, &usdc, IntentOrderUpdate::Opened, amounts)
            .unwrap();
    assert_eq!(intent.input_start.units, BigInt::from(1));
    assert_eq!(intent.output_start.units, BigInt::from(2));
    assert_eq!(intent.input_end.units, BigInt::from(3));
    assert_eq!(intent.output_end.units, BigInt::from(4));
    let amounts = ParsedAmounts {
        input_start: Some(BigInt::from(1)),
        output_start: Some(BigInt::from(2)),
        input_end: None,
        output_end: Some(BigInt::from(4)),
    };
    let r = intent_order_from_amounts(&uni_order, &weth, &usdc, IntentOrderUpdate::Opened, amounts);
    assert_eq!(r.unwrap_err(), DexError::Error("Failed to parse BigInt".to_string()));
}
