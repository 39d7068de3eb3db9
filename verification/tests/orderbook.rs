use barter::error::{DataError, SocketError};
use barter::orderbook::{Level, OrderBook, OrderBookSide, Side};
use barter::subscription::{ExchangeId, Instrument, InstrumentKind, SubscriptionId};
use barter::subscription_map::SubscriptionMap;
use barter::transformer::MultiBookTransformer;
use barter::updater::{
    BookSnapshot, BookUpdate, InstrumentOrderBook, OrderBookUpdater, SequenceBookUpdater, SyncState,
};

// Quantities are written in tenths: 10 stands for 1.0.

fn level(price: u64, amount: u64) -> Level {
    Level { price, amount }
}

fn snapshot() -> BookSnapshot {
    BookSnapshot {
        last_update_id: 40,
        bids: vec![level(100, 10), level(99, 20)],
        asks: vec![level(101, 15)],
    }
}

fn eth_usdt() -> Instrument {
    Instrument::new("eth".to_string(), "usdt".to_string(), InstrumentKind::Spot)
}

fn started() -> InstrumentOrderBook<SequenceBookUpdater> {
    SequenceBookUpdater::init(eth_usdt(), snapshot()).unwrap()
}

fn delta(first: u64, last: u64, bids: Vec<Level>, asks: Vec<Level>) -> BookUpdate {
    BookUpdate {
        subscription_id: Some(SubscriptionId("@depth@100ms|ETHUSDT".to_string())),
        first_update_id: first,
        last_update_id: last,
        bids,
        asks,
    }
}

#[test]
fn zero_quantity_removes_the_level() {
    let mut kept = started();
    let out = kept
        .updater
        .update(&mut kept.book, delta(41, 41, vec![level(100, 0)], vec![]))
        .unwrap()
        .unwrap();
    assert_eq!(kept.book.bids().levels(), vec![level(99, 20)]);
    assert_eq!(kept.book.asks().levels(), vec![level(101, 15)]);
    assert_eq!(out.bids().levels(), vec![level(99, 20)]);
    assert_eq!(out.asks().levels(), vec![level(101, 15)]);
    assert_eq!(kept.book.sequence(), 41);
    assert_eq!(out.sequence(), 41);
}

#[test]
fn snapshot_levels_are_put_in_order() {
    let book = OrderBook::new(
        7,
        &vec![level(98, 1), level(100, 2), level(99, 3)],
        &vec![level(103, 4), level(101, 5), level(102, 6)],
    );
    assert_eq!(book.bids().levels(), vec![level(100, 2), level(99, 3), level(98, 1)]);
    assert_eq!(book.asks().levels(), vec![level(101, 5), level(102, 6), level(103, 4)]);
    assert_eq!(book.bids().best(), Some(level(100, 2)));
    assert_eq!(book.asks().best(), Some(level(101, 5)));
    assert_eq!(book.sequence(), 7);
}

#[test]
fn snapshot_keeps_the_last_level_of_a_price_and_no_empty_level() {
    let book = OrderBook::new(1, &vec![level(100, 2), level(100, 9), level(99, 0)], &vec![]);
    assert_eq!(book.bids().levels(), vec![level(100, 9)]);
    assert_eq!(book.asks().levels(), vec![]);
    assert_eq!(book.asks().best(), None);
}

#[test]
fn upsert_inserts_replaces_and_removes() {
    let mut asks = OrderBookSide::new(Side::Sell);
    asks.upsert(level(105, 1));
    asks.upsert(level(101, 2));
    asks.upsert(level(103, 3));
    assert_eq!(asks.levels(), vec![level(101, 2), level(103, 3), level(105, 1)]);
    asks.upsert(level(103, 7));
    assert_eq!(asks.levels(), vec![level(101, 2), level(103, 7), level(105, 1)]);
    asks.upsert(level(101, 0));
    assert_eq!(asks.levels(), vec![level(103, 7), level(105, 1)]);
    asks.upsert(level(104, 0));
    assert_eq!(asks.levels(), vec![level(103, 7), level(105, 1)]);
    assert_eq!(asks.len(), 2);
    assert_eq!(asks.side(), Side::Sell);
    assert_eq!(asks.amount_at(103), Some(7));
    assert_eq!(asks.amount_at(104), None);

    let mut bids = OrderBookSide::new(Side::Buy);
    bids.upsert_all(&vec![level(10, 1), level(30, 1), level(20, 1), level(30, 0), level(5, 4)]);
    assert_eq!(bids.levels(), vec![level(20, 1), level(10, 1), level(5, 4)]);
}

#[test]
fn contiguous_updates_keep_both_sides_strictly_ordered() {
    let mut kept = started();
    let mut sequence = 40;
    for round in 0..50u64 {
        let bids = vec![level(90 + (round * 7) % 11, (round * 3) % 4), level(95, round % 2)];
        let asks = vec![level(101 + (round * 5) % 13, (round * 2) % 3), level(104, round % 3)];
        let out = kept
            .updater
            .update(&mut kept.book, delta(sequence + 1, sequence + 2, bids, asks))
            .unwrap();
        assert!(out.is_some());
        sequence += 2;
        let bids = kept.book.bids().levels();
        let asks = kept.book.asks().levels();
        assert!(bids.windows(2).all(|w| w[0].price > w[1].price));
        assert!(asks.windows(2).all(|w| w[0].price < w[1].price));
        assert!(bids.iter().chain(asks.iter()).all(|l| l.amount > 0));
        assert_eq!(kept.book.sequence(), sequence);
    }
    assert_eq!(kept.updater.state, SyncState::Synced);
}

#[test]
fn stale_update_changes_nothing() {
    let mut kept = started();
    let out = kept
        .updater
        .update(&mut kept.book, delta(30, 39, vec![level(100, 0)], vec![level(101, 0)]))
        .unwrap();
    assert!(out.is_none());
    let out = kept
        .updater
        .update(&mut kept.book, delta(35, 40, vec![level(100, 0)], vec![level(101, 0)]))
        .unwrap();
    assert!(out.is_none());
    assert_eq!(kept.book.bids().levels(), vec![level(100, 10), level(99, 20)]);
    assert_eq!(kept.book.asks().levels(), vec![level(101, 15)]);
    assert_eq!(kept.book.sequence(), 40);
    assert_eq!(kept.updater.state, SyncState::Buffering);
}

#[test]
fn first_update_may_reach_across_the_snapshot() {
    let mut kept = started();
    let out = kept
        .updater
        .update(&mut kept.book, delta(38, 44, vec![level(98, 5)], vec![]))
        .unwrap();
    assert!(out.is_some());
    assert_eq!(kept.book.bids().levels(), vec![level(100, 10), level(99, 20), level(98, 5)]);
    assert_eq!(kept.book.sequence(), 44);
    assert_eq!(kept.updater.state, SyncState::Synced);

    // Once in step, an update that overlaps is refused.
    let refused = kept.updater.update(&mut kept.book, delta(44, 46, vec![level(98, 0)], vec![]));
    assert_eq!(
        refused.unwrap_err(),
        DataError::InvalidSequence { prev_last_update_id: 44, first_update_id: 44 }
    );
}

#[test]
fn gap_asks_for_a_new_snapshot() {
    let mut kept = started();
    let refused = kept.updater.update(&mut kept.book, delta(42, 43, vec![level(100, 0)], vec![]));
    let error = refused.unwrap_err();
    assert_eq!(error, DataError::InvalidSequence { prev_last_update_id: 40, first_update_id: 42 });
    assert!(error.is_terminal());
    assert_eq!(kept.book.bids().levels(), vec![level(100, 10), level(99, 20)]);
    assert_eq!(kept.book.sequence(), 40);
    assert_eq!(kept.updater.state, SyncState::AwaitingSnapshot);

    // Nothing is merged until a snapshot comes, not even what would have connected.
    let refused = kept.updater.update(&mut kept.book, delta(41, 41, vec![level(100, 0)], vec![]));
    assert_eq!(
        refused.unwrap_err(),
        DataError::InvalidSequence { prev_last_update_id: 40, first_update_id: 41 }
    );
    assert_eq!(kept.book.bids().levels(), vec![level(100, 10), level(99, 20)]);

    let fresh = BookSnapshot { last_update_id: 50, bids: vec![level(97, 1)], asks: vec![] };
    kept.updater.resync(&mut kept.book, &fresh);
    assert_eq!(kept.updater.state, SyncState::Buffering);
    assert_eq!(kept.book.bids().levels(), vec![level(97, 1)]);
    assert_eq!(kept.book.sequence(), 50);
    let out = kept.updater.update(&mut kept.book, delta(51, 51, vec![], vec![level(99, 3)]));
    assert!(out.unwrap().is_some());
    assert_eq!(kept.book.asks().levels(), vec![level(99, 3)]);
}

#[test]
fn update_at_the_end_of_the_sequence_range() {
    let mut kept = SequenceBookUpdater::init(
        eth_usdt(),
        BookSnapshot { last_update_id: u64::MAX - 1, bids: vec![], asks: vec![] },
    )
    .unwrap();
    let out = kept
        .updater
        .update(&mut kept.book, delta(u64::MAX, u64::MAX, vec![level(1, 1)], vec![]))
        .unwrap();
    assert!(out.is_some());
    assert_eq!(kept.book.sequence(), u64::MAX);
    let out = kept
        .updater
        .update(&mut kept.book, delta(u64::MAX, u64::MAX, vec![level(1, 0)], vec![]))
        .unwrap();
    assert!(out.is_none());
    assert_eq!(kept.book.bids().levels(), vec![level(1, 1)]);
}

fn transformer() -> MultiBookTransformer<SequenceBookUpdater> {
    let mut transformer = MultiBookTransformer::new(ExchangeId::BinanceSpot);
    transformer
        .init_connection(vec![
            (SubscriptionId("@depth@100ms|ETHUSDT".to_string()), eth_usdt(), snapshot()),
            (
                SubscriptionId("@depth@100ms|BTCUSDT".to_string()),
                Instrument::new("btc".to_string(), "usdt".to_string(), InstrumentKind::Spot),
                BookSnapshot { last_update_id: 7, bids: vec![level(5, 5)], asks: vec![level(6, 6)] },
            ),
        ])
        .unwrap();
    transformer
}

#[test]
fn message_without_routing_key_gives_nothing() {
    let mut transformer = transformer();
    let mut update = delta(41, 41, vec![level(100, 0)], vec![]);
    update.subscription_id = None;
    assert!(transformer.transform(update, 1_700_000_000_000).is_empty());
    let id = SubscriptionId("@depth@100ms|ETHUSDT".to_string());
    let kept = transformer.book_map.get(&id).unwrap();
    assert_eq!(kept.book.bids().levels(), vec![level(100, 10), level(99, 20)]);
}

#[test]
fn message_for_an_unknown_subscription_is_unidentifiable() {
    let mut transformer = transformer();
    let mut update = delta(41, 41, vec![level(100, 0)], vec![]);
    update.subscription_id = Some(SubscriptionId("@depth@100ms|SOLUSDT".to_string()));
    let out = transformer.transform(update, 1_700_000_000_000);
    assert_eq!(out.len(), 1);
    let error = out.into_iter().next().unwrap().unwrap_err();
    assert_eq!(
        error,
        DataError::Socket(SocketError::Unidentifiable(SubscriptionId(
            "@depth@100ms|SOLUSDT".to_string()
        )))
    );
    assert!(!error.is_terminal());
    assert_eq!(transformer.book_map.len(), 2);
}

#[test]
fn merged_message_gives_one_event_with_the_book() {
    let mut transformer = transformer();
    let out = transformer.transform(delta(41, 42, vec![level(100, 0)], vec![level(102, 4)]), 1234);
    assert_eq!(out.len(), 1);
    let event = out.into_iter().next().unwrap().unwrap();
    assert_eq!(event.exchange, ExchangeId::BinanceSpot);
    assert_eq!(event.instrument, eth_usdt());
    assert_eq!(event.received_time, 1234);
    assert_eq!(event.exchange_time, 1234);
    assert_eq!(event.kind.bids().levels(), vec![level(99, 20)]);
    assert_eq!(event.kind.asks().levels(), vec![level(101, 15), level(102, 4)]);
    assert_eq!(event.kind.sequence(), 42);

    let eth = transformer.book_map.get(&SubscriptionId("@depth@100ms|ETHUSDT".to_string())).unwrap();
    assert_eq!(eth.book.bids().levels(), vec![level(99, 20)]);
    assert_eq!(eth.updater.state, SyncState::Synced);
    let btc = transformer.book_map.get(&SubscriptionId("@depth@100ms|BTCUSDT".to_string())).unwrap();
    assert_eq!(btc.book.bids().levels(), vec![level(5, 5)]);
    assert_eq!(btc.book.sequence(), 7);
    assert_eq!(btc.updater.state, SyncState::Buffering);
}

#[test]
fn dropped_and_refused_messages() {
    let mut transformer = transformer();
    assert!(transformer.transform(delta(1, 40, vec![level(100, 0)], vec![]), 1).is_empty());
    let out = transformer.transform(delta(50, 51, vec![level(100, 0)], vec![]), 2);
    assert_eq!(out.len(), 1);
    assert_eq!(
        out.into_iter().next().unwrap().unwrap_err(),
        DataError::InvalidSequence { prev_last_update_id: 40, first_update_id: 50 }
    );
    let eth = transformer.book_map.get(&SubscriptionId("@depth@100ms|ETHUSDT".to_string())).unwrap();
    assert_eq!(eth.book.bids().levels(), vec![level(100, 10), level(99, 20)]);
    assert_eq!(eth.updater.state, SyncState::AwaitingSnapshot);
}

#[test]
fn transformer_without_books_knows_no_subscription() {
    let mut transformer: MultiBookTransformer<SequenceBookUpdater> =
        MultiBookTransformer::new(ExchangeId::Kraken);
    let out = transformer.transform(delta(1, 1, vec![], vec![]), 0);
    assert_eq!(out.len(), 1);
    assert!(out[0].is_err());
}

#[test]
fn init_connection_takes_the_last_snapshot_of_a_key() {
    let mut transformer: MultiBookTransformer<SequenceBookUpdater> =
        MultiBookTransformer::new(ExchangeId::Okx);
    let id = SubscriptionId("books|ETH-USDT".to_string());
    transformer
        .init_connection(vec![
            (id.clone(), eth_usdt(), snapshot()),
            (
                id.clone(),
                eth_usdt(),
                BookSnapshot { last_update_id: 9, bids: vec![level(1, 1)], asks: vec![] },
            ),
        ])
        .unwrap();
    assert_eq!(transformer.book_map.len(), 1);
    let kept = transformer.book_map.get(&id).unwrap();
    assert_eq!(kept.book.sequence(), 9);
    assert_eq!(kept.book.bids().levels(), vec![level(1, 1)]);
}

#[test]
fn init_book_map_keeps_the_books() {
    let mut map = SubscriptionMap::new();
    let id = SubscriptionId("books|ETH-USDT".to_string());
    assert!(map.insert(id.clone(), started()).is_none());
    assert!(map.contains(&id));
    let replaced = map.insert(id.clone(), started());
    assert!(replaced.is_some());
    assert_eq!(map.len(), 1);
    let transformer = MultiBookTransformer::init_book_map(ExchangeId::Okx, map).unwrap();
    assert_eq!(transformer.exchange, ExchangeId::Okx);
    assert_eq!(transformer.book_map.len(), 1);
    let mut map = transformer.book_map;
    assert!(map.remove(&id).is_some());
    assert!(map.remove(&id).is_none());
    assert!(map.get(&id).is_none());
    assert_eq!(map.len(), 0);
}

#[test]
fn replay_merges_a_recorded_run() {
    let mut kept = started();
    kept.updater.replay(
        &mut kept.book,
        vec![
            delta(30, 40, vec![level(1, 1)], vec![]),
            delta(41, 42, vec![level(100, 0), level(98, 7)], vec![level(101, 0)]),
            delta(43, 43, vec![], vec![level(102, 1), level(103, 2)]),
            delta(44, 47, vec![level(99, 3)], vec![level(103, 0)]),
        ],
    );
    assert_eq!(kept.book.bids().levels(), vec![level(99, 3), level(98, 7)]);
    assert_eq!(kept.book.asks().levels(), vec![level(102, 1)]);
    assert_eq!(kept.book.sequence(), 47);
    assert_eq!(kept.updater.state, SyncState::Synced);

    // After a gap nothing more is merged.
    kept.updater.replay(
        &mut kept.book,
        vec![
            delta(49, 50, vec![level(99, 0)], vec![]),
            delta(48, 48, vec![level(98, 0)], vec![]),
        ],
    );
    assert_eq!(kept.book.bids().levels(), vec![level(99, 3), level(98, 7)]);
    assert_eq!(kept.book.sequence(), 47);
    assert_eq!(kept.updater.state, SyncState::AwaitingSnapshot);
}
