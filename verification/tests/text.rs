use barter::fixed::parse_fixed;
use barter::orderbook::{parse_level, parse_levels, Level};
use barter::subscription::{
    sort_and_dedup, ExchangeId, Instrument, InstrumentKind, StreamKind, Subscription,
};
use barter::text::{decimal, str_before, str_contains};

#[test]
fn decimal_writes_what_the_standard_library_writes() {
    for n in [0u64, 1, 9, 10, 11, 99, 100, 101, 12345, 1_000_000, u64::MAX - 1, u64::MAX] {
        assert_eq!(decimal(n), n.to_string());
    }
    assert_eq!(decimal(907), "907");
}

#[test]
fn strings_are_ordered_as_the_standard_library_orders_them() {
    let samples = ["", "a", "A", "ab", "abc", "abd", "b", "é", "z", "zz", "日本", "~", "a\u{0}"];
    for a in samples {
        for b in samples {
            assert_eq!(str_before(a, b), a < b, "{a:?} {b:?}");
        }
    }
    assert!(str_before("AAVE", "UNI"));
    assert!(!str_before("UNI", "AAVE"));
    assert!(!str_before("UNI", "UNI"));
}

#[test]
fn containment_is_what_the_standard_library_finds() {
    let samples = ["", "a", "aa", "aab", "ab", "ba", "Invalid login credentials", "login", "é", "日本語", "本"];
    for hay in samples {
        for needle in samples {
            assert_eq!(str_contains(hay, needle), hay.contains(needle), "{hay:?} {needle:?}");
        }
    }
    assert!(str_contains("xxInvalid login credentialsxx", "Invalid login credentials"));
    assert!(!str_contains("Invalid login credential", "Invalid login credentials"));
}

fn subscription(exchange: ExchangeId, base: &str, quote: &str, kind: StreamKind) -> Subscription {
    Subscription::new(
        exchange,
        Instrument::new(base.to_string(), quote.to_string(), InstrumentKind::Spot),
        kind,
    )
}

#[test]
fn subscriptions_are_sorted_and_come_once() {
    let eth_trades = || subscription(ExchangeId::BinanceSpot, "eth", "usdt", StreamKind::PublicTrades);
    let eth_books = || subscription(ExchangeId::BinanceSpot, "eth", "usdt", StreamKind::OrderBooksL2);
    let btc_books = || subscription(ExchangeId::BinanceSpot, "btc", "usdt", StreamKind::OrderBooksL2);
    let kraken = || subscription(ExchangeId::Kraken, "ada", "usd", StreamKind::PublicTrades);
    let perp = || {
        Subscription::new(
            ExchangeId::BinanceSpot,
            Instrument::new("btc".to_string(), "usdt".to_string(), InstrumentKind::Perpetual),
            StreamKind::PublicTrades,
        )
    };
    let sorted = sort_and_dedup(vec![
        kraken(),
        eth_books(),
        eth_trades(),
        btc_books(),
        eth_books(),
        perp(),
        kraken(),
        eth_trades(),
    ]);
    assert_eq!(sorted, vec![btc_books(), perp(), eth_trades(), eth_books(), kraken()]);
    assert_eq!(sort_and_dedup(vec![]), vec![]);
    assert_eq!(sort_and_dedup(vec![kraken()]), vec![kraken()]);
    assert_eq!(sort_and_dedup(sorted.clone()), sorted);

    assert!(btc_books().before(&eth_trades()));
    assert!(!eth_trades().before(&btc_books()));
    assert!(!kraken().before(&kraken()));
    assert!(kraken().same(&kraken()));
    assert!(!kraken().same(&eth_books()));
    assert_eq!(ExchangeId::UniswapX.as_str(), "uniswapx");
    assert_eq!(ExchangeId::BinanceFuturesUsd.as_str(), "binance_futures_usd");
}

#[test]
fn decimal_texts_are_read_exactly() {
    assert_eq!(parse_fixed("100", 2), Some(10_000));
    assert_eq!(parse_fixed("100.5", 2), Some(10_050));
    assert_eq!(parse_fixed("100.50", 2), Some(10_050));
    assert_eq!(parse_fixed("0.01", 2), Some(1));
    assert_eq!(parse_fixed("000.10", 2), Some(10));
    assert_eq!(parse_fixed("1.5", 1), Some(15));
    assert_eq!(parse_fixed("7", 0), Some(7));
    assert_eq!(parse_fixed("0", 0), Some(0));
    assert_eq!(parse_fixed("0.0", 200), Some(0));
    assert_eq!(parse_fixed("0.00000001", 8), Some(1));
    assert_eq!(parse_fixed("27345.12000000", 8), Some(2_734_512_000_000));
    // More digits than decimals are not cut off.
    assert_eq!(parse_fixed("1.50", 1), None);
    assert_eq!(parse_fixed("1.0", 0), None);
    // No text but digits and one point between digits.
    for text in ["", ".", "1.", ".5", "1..5", "1.2.3", "-1", "+1", " 1", "1 ", "1e3", "1,5", "١", "1.x"] {
        assert_eq!(parse_fixed(text, 8), None, "{text:?}");
    }
    // The largest value fits, the next does not.
    assert_eq!(parse_fixed("18446744073709551615", 0), Some(u64::MAX));
    assert_eq!(parse_fixed("18446744073709551616", 0), None);
    assert_eq!(parse_fixed("184467440737095516.15", 2), Some(u64::MAX));
    assert_eq!(parse_fixed("184467440737095516.16", 2), None);
    assert_eq!(parse_fixed("1844674407370955161.5", 2), None);
    assert_eq!(parse_fixed("1", 19), Some(10_000_000_000_000_000_000));
    assert_eq!(parse_fixed("1", 20), None);
    assert_eq!(parse_fixed("99999999999999999999999999", 0), None);
}

#[test]
fn levels_are_read_from_decimal_texts() {
    assert_eq!(parse_level("100", "1.0", 2, 1), Some(Level { price: 10_000, amount: 10 }));
    assert_eq!(parse_level("99.5", "0", 2, 1), Some(Level { price: 9_950, amount: 0 }));
    assert_eq!(parse_level("99.555", "1", 2, 1), None);
    assert_eq!(parse_level("99", "one", 2, 1), None);
}

#[test]
fn all_levels_of_a_side_are_read_or_none() {
    let texts = vec![
        ("27345.12".to_string(), "0.5".to_string()),
        ("27345.11".to_string(), "0".to_string()),
    ];
    assert_eq!(
        parse_levels(&texts, 2, 3),
        Some(vec![Level { price: 2_734_512, amount: 500 }, Level { price: 2_734_511, amount: 0 }])
    );
    assert_eq!(parse_levels(&vec![], 2, 3), Some(vec![]));
    let texts = vec![
        ("27345.12".to_string(), "0.5".to_string()),
        ("27345.111".to_string(), "0".to_string()),
    ];
    assert_eq!(parse_levels(&texts, 2, 3), None);
}
