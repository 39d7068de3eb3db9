use barter::binance::{
    order_path, order_query, BinanceApi, BinancePair, BinanceParser, BinanceSigner, LiveOrTest,
    OrderExecutionType, OrderRequest, OrderType, QueryParams,
};
use barter::error::SocketError;
use barter::execution::{
    filter_responses, get_order_side, remove_error_responses, Decision, ExecutionError,
    ExecutionId,
};
use barter::fill::{Fees, FillEvent, FillEventBuilder, MarketMeta};
use barter::flat_files::{recorded_line, snapshot_file_name, BacktestMode};
use barter::subscription::{Instrument, InstrumentKind, SubscriptionId};

#[test]
fn decisions() {
    assert!(Decision::Long.is_long());
    assert!(!Decision::Short.is_long());
    assert!(Decision::Short.is_short());
    assert!(!Decision::CloseShort.is_short());
    assert!(Decision::Long.is_entry() && Decision::Short.is_entry());
    assert!(!Decision::CloseLong.is_entry() && !Decision::CloseShort.is_entry());
    assert!(Decision::CloseLong.is_exit() && Decision::CloseShort.is_exit());
    assert!(!Decision::Long.is_exit() && !Decision::Short.is_exit());
    assert_eq!(Decision::default(), Decision::Long);
    for decision in [Decision::Long, Decision::CloseLong, Decision::Short, Decision::CloseShort] {
        assert_ne!(decision.is_entry(), decision.is_exit());
    }
}

#[test]
fn order_sides() {
    assert_eq!(get_order_side(Decision::Long), "BUY");
    assert_eq!(get_order_side(Decision::Short), "SELL");
    assert_eq!(get_order_side(Decision::CloseLong), "SELL");
    assert_eq!(get_order_side(Decision::CloseShort), "BUY");
}

#[test]
fn execution_ids() {
    assert_eq!(ExecutionId::Simulated.as_str(), "simulated");
    assert_eq!(ExecutionId::Binance.as_str(), "binance");
}

#[test]
fn failures_are_dropped_and_the_order_is_kept() {
    let responses: Vec<Result<u32, ExecutionError>> = vec![
        Ok(1),
        Err(ExecutionError::Simulated("down".to_string())),
        Ok(2),
        Err(ExecutionError::OrderNotFound("cid".to_string())),
        Ok(3),
    ];
    assert_eq!(filter_responses(responses.clone()), vec![1, 2, 3]);
    assert_eq!(remove_error_responses(responses), vec![1, 2, 3]);
    assert_eq!(filter_responses::<u32>(vec![]), Vec::<u32>::new());
    assert_eq!(
        filter_responses::<u32>(vec![Err(ExecutionError::Unauthorised("no".to_string()))]),
        Vec::<u32>::new()
    );
    assert_eq!(remove_error_responses::<&str>(vec![Ok("a"), Ok("b")]), vec!["a", "b"]);
}

#[test]
fn binance_addresses() {
    assert_eq!(BinanceApi::Spot(LiveOrTest::Live).get_url(), "https://api.binance.com");
    assert_eq!(BinanceApi::Spot(LiveOrTest::Test).get_url(), "https://api.binance.com");
    assert_eq!(BinanceApi::Futures(LiveOrTest::Live).get_url(), "https://fapi.binance.com");
    assert_eq!(
        BinanceApi::Futures(LiveOrTest::Test).get_url(),
        "https://testnet.binancefuture.com"
    );
    assert_eq!(order_path(BinanceApi::Futures(LiveOrTest::Live)), "/fapi/v1/order");
    assert_eq!(order_path(BinanceApi::Futures(LiveOrTest::Test)), "/fapi/v1/order");
}

#[test]
fn signer_and_what_it_signs() {
    let signer = BinanceSigner::init("key".to_string(), -250);
    assert_eq!(signer.api_key, "key");
    assert_eq!(signer.timestamp_delta, -250);
    let config = signer.config("symbol=ETHUSDT&timestamp=1".to_string());
    assert_eq!(config.api_key, "key");
    assert_eq!(config.bytes_to_sign(), b"symbol=ETHUSDT&timestamp=1".to_vec());
}

#[test]
fn api_errors() {
    let parser = BinanceParser;
    assert_eq!(
        parser.parse_api_error(401, "{\"msg\":\"Invalid login credentials\"}", "expected value"),
        ExecutionError::Unauthorised(
            "expected value{\"msg\":\"Invalid login credentials\"}".to_string()
        )
    );
    assert_eq!(
        parser.parse_api_error(400, "{\"msg\":\"invalid login credentials\"}", "eof"),
        ExecutionError::Socket(SocketError::HttpResponse(
            400,
            "eof{\"msg\":\"invalid login credentials\"}".to_string()
        ))
    );
    // The two parts are read as one text.
    assert_eq!(
        parser.parse_api_error(500, " login credentials", "Invalid"),
        ExecutionError::Unauthorised("Invalid login credentials".to_string())
    );
    assert_eq!(
        parser.parse_api_error(500, "", ""),
        ExecutionError::Socket(SocketError::HttpResponse(500, "".to_string()))
    );
}

#[test]
fn pairs_are_upper_case() {
    assert_eq!(BinancePair::new("eth", "usdt"), BinancePair("ETHUSDT".to_string()));
    assert_eq!(BinancePair::new("Btc", "USDT").0, "BTCUSDT");
}

#[test]
fn query_keeps_the_order_of_additions() {
    let mut query = QueryParams::new();
    assert!(query.0.is_empty());
    query.add_kv("symbol", "ETHUSDT");
    query.add_kv("side", "BUY");
    query.add_kv("symbol", "again");
    assert_eq!(
        query.0,
        vec![
            ("symbol".to_string(), "ETHUSDT".to_string()),
            ("side".to_string(), "BUY".to_string()),
            ("symbol".to_string(), "again".to_string()),
        ]
    );
}

fn request(decision: Decision, order_type: OrderType) -> OrderRequest {
    OrderRequest {
        base: "eth".to_string(),
        quote: "usdt".to_string(),
        decision,
        quantity: "0.001".to_string(),
        id: "LJ9R4QZDihCaS8UAOOLpgW".to_string(),
        order_type,
    }
}

fn pairs(query: &QueryParams) -> Vec<(&str, &str)> {
    query.0.iter().map(|(k, v)| (k.as_str(), v.as_str())).collect()
}

#[test]
fn limit_order_query() {
    let query = order_query(&request(
        Decision::Long,
        OrderType::Limit { price: "10000".to_string(), execution_type: OrderExecutionType::Standard },
    ));
    assert_eq!(
        pairs(&query),
        vec![
            ("symbol", "ETHUSDT"),
            ("side", "BUY"),
            ("quantity", "0.001"),
            ("newClientOrderId", "LJ9R4QZDihCaS8UAOOLpgW"),
            ("type", "LIMIT"),
            ("timeInForce", "GTC"),
            ("price", "10000"),
        ]
    );
    let query = order_query(&request(
        Decision::Short,
        OrderType::Limit { price: "9".to_string(), execution_type: OrderExecutionType::MakerOnly },
    ));
    assert_eq!(
        pairs(&query)[1..],
        [
            ("side", "SELL"),
            ("quantity", "0.001"),
            ("newClientOrderId", "LJ9R4QZDihCaS8UAOOLpgW"),
            ("type", "LIMIT_MAKER"),
            ("price", "9"),
        ]
    );
}

#[test]
fn market_and_stop_order_queries() {
    let query = order_query(&request(Decision::CloseLong, OrderType::Market));
    assert_eq!(
        pairs(&query)[1..],
        [
            ("side", "SELL"),
            ("quantity", "0.001"),
            ("newClientOrderId", "LJ9R4QZDihCaS8UAOOLpgW"),
            ("type", "MARKET"),
            ("newOrderRespType", "RESULT"),
        ]
    );
    let query = order_query(&request(
        Decision::CloseShort,
        OrderType::StopLoss { stop_price: "9300".to_string() },
    ));
    assert_eq!(
        pairs(&query)[4..],
        [("type", "STOP_LOSS"), ("stopPrice", "9300"), ("timeInForce", "GTC")]
    );
    assert_eq!(pairs(&query)[1], ("side", "BUY"));
    let query = order_query(&request(
        Decision::Long,
        OrderType::TrailingStop { trailing_delta: "30".to_string(), stop_price: None },
    ));
    assert_eq!(
        pairs(&query)[4..],
        [("type", "STOP_LOSS"), ("trailingDelta", "30"), ("timeInForce", "GTC")]
    );
    let query = order_query(&request(
        Decision::Long,
        OrderType::TrailingStop {
            trailing_delta: "30".to_string(),
            stop_price: Some("9020".to_string()),
        },
    ));
    assert_eq!(
        pairs(&query)[4..],
        [
            ("type", "STOP_LOSS"),
            ("trailingDelta", "30"),
            ("timeInForce", "GTC"),
            ("stopPrice", "9020"),
        ]
    );
}

#[test]
fn recording() {
    assert!(BacktestMode::ToFile.records());
    assert!(!BacktestMode::FromFile.records());
    assert!(!BacktestMode::Off.records());
    assert_eq!(
        snapshot_file_name(&SubscriptionId("@depth@100ms|ETHUSDT".to_string()), "2024-03-01"),
        "data/snapshot_@depth@100ms|ETHUSDT_2024-03-01.json"
    );
    assert_eq!(snapshot_file_name(&SubscriptionId("".to_string()), ""), "data/snapshot__.json");
    assert_eq!(recorded_line("{\"u\":1}"), "{\"u\":1}\n");
    assert_eq!(recorded_line(""), "\n");
}

fn complete() -> FillEventBuilder {
    FillEvent::builder()
        .time(1_700_000_000_000)
        .exchange("binance".to_string())
        .instrument(Instrument::new("eth".to_string(), "usdt".to_string(), InstrumentKind::Spot))
        .market_meta(MarketMeta { close: 100, time: 1_699_999_999_000 })
        .decision(Decision::Short)
        .quantity(-10)
        .fill_value_gross(1000)
        .fees(Fees { exchange: 50, slippage: 10, network: 1 })
}

#[test]
fn builder_with_every_attribute_builds() {
    let fill = complete().build().unwrap();
    assert_eq!(fill.time, 1_700_000_000_000);
    assert_eq!(fill.exchange, "binance");
    assert_eq!(fill.instrument.base, "eth");
    assert_eq!(fill.market_meta, MarketMeta { close: 100, time: 1_699_999_999_000 });
    assert_eq!(fill.decision, Decision::Short);
    assert_eq!(fill.quantity, -10);
    assert_eq!(fill.fill_value_gross, 1000);
    assert_eq!(fill.fees.calculate_total_fees(), 61);
    let most = Fees { exchange: u64::MAX, slippage: u64::MAX, network: u64::MAX };
    assert_eq!(most.calculate_total_fees(), 3 * (u64::MAX as u128));
}

#[test]
fn builder_names_the_first_missing_attribute() {
    let missing = |builder: FillEventBuilder| match builder.build() {
        Err(ExecutionError::BuilderIncomplete(name)) => name,
        other => panic!("{:?}", other),
    };
    assert_eq!(missing(FillEventBuilder::new()), "time");
    assert_eq!(missing(FillEventBuilder::new().fees(Fees { exchange: 0, slippage: 0, network: 0 })), "time");
    assert_eq!(missing(FillEventBuilder { time: None, ..complete() }), "time");
    assert_eq!(missing(FillEventBuilder { exchange: None, ..complete() }), "exchange");
    assert_eq!(missing(FillEventBuilder { instrument: None, ..complete() }), "instrument");
    assert_eq!(missing(FillEventBuilder { market_meta: None, ..complete() }), "market_meta");
    assert_eq!(missing(FillEventBuilder { decision: None, ..complete() }), "decision");
    assert_eq!(missing(FillEventBuilder { quantity: None, ..complete() }), "quantity");
    assert_eq!(
        missing(FillEventBuilder { fill_value_gross: None, ..complete() }),
        "fill_value_gross"
    );
    assert_eq!(missing(FillEventBuilder { fees: None, ..complete() }), "fees");
    assert_eq!(
        missing(FillEventBuilder { exchange: None, quantity: None, ..complete() }),
        "exchange"
    );
}
