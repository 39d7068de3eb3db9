//! Turning a venue's raw messages into normalised market events.

use crate::error::{DataError, SocketError};
use crate::event::MarketEvent;
use crate::orderbook::{BookView, OrderBook};
use crate::subscription::{ExchangeId, Instrument, SubscriptionId};
use crate::subscription_map::SubscriptionMap;
use crate::updater::{InstrumentOrderBook, OrderBookUpdater, Outcome};
use vstd::prelude::*;

verus! {

/// Some snapshot before the `n`-th is for the routing key `key`.
pub open spec fn keyed_below<S>(
    snapshots: Seq<(SubscriptionId, Instrument, S)>,
    n: int,
    key: Seq<char>,
) -> bool {
    exists|i: int| 0 <= i < n && (#[trigger] snapshots[i]).0@ == key
}

/// The `i`-th snapshot is the last one for its routing key before the `n`-th.
pub open spec fn last_below<S>(snapshots: Seq<(SubscriptionId, Instrument, S)>, n: int, i: int) -> bool {
    &&& 0 <= i < n
    &&& forall|j: int| i < j < n ==> (#[trigger] snapshots[j]).0@ != snapshots[i].0@
}

/// The first snapshot before the `n`-th that starts no book, if there is one.
pub open spec fn first_refused<Updater: OrderBookUpdater>(
    snapshots: Seq<(SubscriptionId, Instrument, Updater::Snapshot)>,
    n: int,
) -> Option<int>
    decreases n,
{
    if n <= 0 {
        None
    } else {
        match first_refused::<Updater>(snapshots, n - 1) {
            Some(i) => Some(i),
            None => if Updater::started(&snapshots[n - 1].2) is Err {
                Some(n - 1)
            } else {
                None
            },
        }
    }
}

/// Once a snapshot is the first to start no book, it stays the first.
pub proof fn lemma_first_refused_stays<Updater: OrderBookUpdater>(
    snapshots: Seq<(SubscriptionId, Instrument, Updater::Snapshot)>,
    i: int,
    n: int,
)
    requires
        0 <= i < n,
        first_refused::<Updater>(snapshots, i) is None,
        Updater::started(&snapshots[i].2) is Err,
    ensures
        first_refused::<Updater>(snapshots, n) == Some(i),
    decreases n - i,
{
    if n > i + 1 {
        lemma_first_refused_stays::<Updater>(snapshots, i, n - 1);
    }
}

/// `kept` is the book that `snapshot` starts, for the snapshot's instrument.
pub open spec fn started_from<Updater: OrderBookUpdater>(
    kept: InstrumentOrderBook<Updater>,
    snapshot: (SubscriptionId, Instrument, Updater::Snapshot),
) -> bool {
    &&& kept.instrument == snapshot.1
    &&& kept.book.wf()
    &&& Updater::started(&snapshot.2) == Ok::<(BookView, Updater), DataError>(
        (kept.book@, kept.updater),
    )
}

/// Keeps the order book of every subscribed instrument of one venue and turns
/// each order book message into the events it gives rise to.
#[derive(Debug)]
pub struct MultiBookTransformer<Updater> {
    pub exchange: ExchangeId,
    pub book_map: SubscriptionMap<InstrumentOrderBook<Updater>>,
}

impl<Updater: OrderBookUpdater> MultiBookTransformer<Updater> {
    /// No routing key is kept twice and every book is in order.
    pub open spec fn wf(&self) -> bool {
        &&& self.book_map.wf()
        &&& forall|key: Seq<char>| #[trigger]
            self.book_map@.contains_key(key) ==> self.book_map@[key].book.wf()
    }

    /// A transformer without books: every keyed message is unidentifiable to it.
    pub fn new(exchange: ExchangeId) -> (r: Self)
        ensures
            r.wf(),
            r.exchange == exchange,
            r.book_map@ == Map::<Seq<char>, InstrumentOrderBook<Updater>>::empty(),
    {
        MultiBookTransformer { exchange, book_map: SubscriptionMap::new() }
    }

    /// A transformer over books that were started beforehand.
    pub fn init_book_map(
        exchange: ExchangeId,
        book_map: SubscriptionMap<InstrumentOrderBook<Updater>>,
    ) -> (r: Result<Self, DataError>)
        requires
            book_map.wf(),
            forall|key: Seq<char>| #[trigger]
                book_map@.contains_key(key) ==> book_map@[key].book.wf(),
        ensures
            r matches Ok(transformer) && transformer.wf() && transformer.exchange == exchange
                && transformer.book_map == book_map,
    {
        Ok(MultiBookTransformer { exchange, book_map })
    }

    /// Starts the book of each subscription from its snapshot and replaces the
    /// books kept so far by them; where a routing key comes twice, its last
    /// snapshot counts. The first snapshot that cannot start a book fails the
    /// whole call with its error, and the books kept so far stay.
    pub fn init_connection(
        &mut self,
        snapshots: Vec<(SubscriptionId, Instrument, Updater::Snapshot)>,
    ) -> (r: Result<(), DataError>)
        requires
            old(self).wf(),
        ensures
            final(self).wf(),
            final(self).exchange == old(self).exchange,
            match first_refused::<Updater>(snapshots@, snapshots@.len() as int) {
                Some(i) => {
                    &&& final(self).book_map == old(self).book_map
                    &&& r matches Err(error)
                    &&& Updater::started(&snapshots@[i].2) == Err::<(BookView, Updater), DataError>(
                        error,
                    )
                },
                None => {
                    &&& r is Ok
                    &&& forall|key: Seq<char>| #[trigger]
                        final(self).book_map@.contains_key(key) <==> keyed_below(
                            snapshots@,
                            snapshots@.len() as int,
                            key,
                        )
                    &&& forall|i: int|
                        last_below(snapshots@, snapshots@.len() as int, i) ==> started_from(
                            final(self).book_map@[(#[trigger] snapshots@[i]).0@],
                            snapshots@[i],
                        )
                },
            },
    {
        let mut book_map: SubscriptionMap<InstrumentOrderBook<Updater>> = SubscriptionMap::new();
        let mut queue = snapshots;
        let ghost all = queue@;
        let total = queue.len();
        let mut done: usize = 0;
        while queue.len() > 0
            invariant
                self.wf(),
                *self == *old(self),
                book_map.wf(),
                all.len() == total,
                all == snapshots@,
                done + queue@.len() == all.len(),
                queue@ == all.skip(done as int),
                first_refused::<Updater>(all, done as int) is None,
                forall|key: Seq<char>| #[trigger]
                    book_map@.contains_key(key) ==> book_map@[key].book.wf(),
                forall|key: Seq<char>| #[trigger]
                    book_map@.contains_key(key) <==> keyed_below(all, done as int, key),
                forall|i: int|
                    last_below(all, done as int, i) ==> started_from(
                        book_map@[(#[trigger] all[i]).0@],
                        all[i],
                    ),
            decreases queue.len(),
        {
            let entry = queue.remove(0);
            assert(entry == all[done as int]);
            assert(queue@ =~= all.skip(done + 1));
            let (id, instrument, snapshot) = entry;
            match Updater::init(instrument, snapshot) {
                Ok(started) => {
                    let ghost before = book_map@;
                    book_map.insert(id, started);
                    proof {
                        let k = all[done as int].0@;
                        assert forall|key: Seq<char>| #[trigger]
                            book_map@.contains_key(key) <==> keyed_below(
                            all,
                            done + 1,
                            key,
                        ) by {
                            if key != k {
                                assert(before.contains_key(key) <==> keyed_below(
                                    all,
                                    done as int,
                                    key,
                                ));
                                if keyed_below(all, done + 1, key) {
                                    let j = choose|j: int|
                                        0 <= j < done + 1 && (#[trigger] all[j]).0@ == key;
                                    assert(j < done);
                                }
                                if keyed_below(all, done as int, key) {
                                    let j = choose|j: int|
                                        0 <= j < done && (#[trigger] all[j]).0@ == key;
                                    assert(j < done + 1);
                                }
                            }
                        }
                        assert forall|i: int| last_below(all, done + 1, i) implies started_from(
                            book_map@[(#[trigger] all[i]).0@],
                            all[i],
                        ) by {
                            if i < done {
                                assert(all[done as int].0@ != all[i].0@);
                                assert(last_below(all, done as int, i));
                            }
                        }
                        assert forall|key: Seq<char>| #[trigger]
                            book_map@.contains_key(key) implies book_map@[key].book.wf() by {
                            if key != k {
                                assert(before.contains_key(key));
                            }
                        }
                    }
                    done += 1;
                },
                Err(error) => {
                    proof {
                        assert(Updater::started(&all[done as int].2) is Err);
                        lemma_first_refused_stays::<Updater>(all, done as int, all.len() as int);
                        assert(first_refused::<Updater>(all, all.len() as int) == Some(done as int));
                    }
                    return Err(error);
                },
            }
        }
        self.book_map = book_map;
        Ok(())
    }

    /// Merges one order book message into the book it belongs to.
    ///
    /// A message without a routing key gives nothing. One whose key no book is
    /// kept under gives the error that says so. Any other is handed to the
    /// book's updater: where that merges it, the one event returned carries a
    /// copy of the book; where it drops it, nothing is returned; where it
    /// refuses it, its error is. No other book is touched.
    pub fn transform(
        &mut self,
        update: Updater::Update,
        received_time: i64,
    ) -> (r: Vec<Result<MarketEvent<OrderBook>, DataError>>)
        requires
            old(self).wf(),
        ensures
            final(self).wf(),
            final(self).exchange == old(self).exchange,
            match Updater::key_of(&update) {
                None => r@.len() == 0 && final(self).book_map@ == old(self).book_map@,
                Some(key) => if !old(self).book_map@.contains_key(key) {
                    &&& final(self).book_map@ == old(self).book_map@
                    &&& r@.len() == 1
                    &&& r@[0] matches Err(DataError::Socket(SocketError::Unidentifiable(id)))
                    &&& id@ == key
                } else {
                    let kept = old(self).book_map@[key];
                    let merged = kept.updater.merged(kept.book@, &update);
                    &&& final(self).book_map@ == old(self).book_map@.insert(
                        key,
                        final(self).book_map@[key],
                    )
                    &&& final(self).book_map@[key].instrument == kept.instrument
                    &&& final(self).book_map@[key].updater == merged.updater
                    &&& final(self).book_map@[key].book@ == merged.book
                    &&& match merged.outcome {
                        Outcome::Quiet => r@.len() == 0,
                        Outcome::Fail(error) => r@ == seq![
                            Err::<MarketEvent<OrderBook>, DataError>(error),
                        ],
                        Outcome::Emit => {
                            &&& r@.len() == 1
                            &&& r@[0] matches Ok(event)
                            &&& event.exchange == old(self).exchange
                            &&& event.instrument@ == kept.instrument@
                            &&& event.exchange_time == received_time
                            &&& event.received_time == received_time
                            &&& event.kind.wf()
                            &&& event.kind@ == merged.book
                        },
                    }
                },
            },
    {
        let subscription_id = match Updater::id(&update) {
            Some(id) => id,
            None => {
                return Vec::new();
            },
        };
        let ghost key = subscription_id@;
        let ghost books = self.book_map@;
        let mut kept = match self.book_map.remove(&subscription_id) {
            Some(kept) => kept,
            None => {
                assert(self.book_map@ =~= books);
                return vec![Err(DataError::Socket(SocketError::Unidentifiable(subscription_id)))];
            },
        };
        let result = kept.updater.update(&mut kept.book, update);
        let instrument = kept.instrument.duplicate();
        self.book_map.insert(subscription_id, kept);
        assert(self.book_map@ =~= books.insert(key, self.book_map@[key]));
        assert forall|k: Seq<char>| #[trigger] self.book_map@.contains_key(k) implies self.book_map@[k].book.wf() by {
            if k != key {
                assert(books.contains_key(k));
            }
        }
        match result {
            Ok(Some(book)) => {
                vec![
                    Ok(
                        MarketEvent {
                            exchange_time: received_time,
                            received_time,
                            exchange: self.exchange,
                            instrument,
                            kind: book,
                        },
                    ),
                ]
            },
            Ok(None) => Vec::new(),
            Err(error) => vec![Err(error)],
        }
    }
}


/// Turns the messages of streams that need no state into events: each message
/// is handed on as it is, for the instrument that its routing key stands for.
#[derive(Debug)]
pub struct BookTransformer {
    pub exchange: ExchangeId,
    pub map: SubscriptionMap<Instrument>,
}

impl BookTransformer {
    pub fn new(exchange: ExchangeId, map: SubscriptionMap<Instrument>) -> (r: Self)
        ensures
            r.exchange == exchange,
            r.map == map,
    {
        BookTransformer { exchange, map }
    }

    /// The events that one message gives rise to. A message without a routing
    /// key gives nothing. One whose key stands for no instrument gives the
    /// error that says so. Any other gives one event that carries the message.
    pub fn transform<Input>(
        &mut self,
        id: Option<SubscriptionId>,
        input: Input,
        received_time: i64,
    ) -> (r: Vec<Result<MarketEvent<Input>, DataError>>)
        requires
            old(self).map.wf(),
        ensures
            *final(self) == *old(self),
            match id {
                None => r@.len() == 0,
                Some(id) => if old(self).map@.contains_key(id@) {
                    &&& r@.len() == 1
                    &&& r@[0] matches Ok(event)
                    &&& event.exchange == old(self).exchange
                    &&& event.instrument@ == old(self).map@[id@]@
                    &&& event.exchange_time == received_time
                    &&& event.received_time == received_time
                    &&& event.kind == input
                } else {
                    r@ == seq![
                        Err::<MarketEvent<Input>, DataError>(
                            DataError::Socket(SocketError::Unidentifiable(id)),
                        ),
                    ]
                },
            },
    {
        let subscription_id = match id {
            Some(id) => id,
            None => {
                return Vec::new();
            },
        };
        match self.map.get(&subscription_id) {
            Some(instrument) => {
                vec![
                    Ok(
                        MarketEvent {
                            exchange_time: received_time,
                            received_time,
                            exchange: self.exchange,
                            instrument: instrument.duplicate(),
                            kind: input,
                        },
                    ),
                ]
            },
            None => vec![Err(DataError::Socket(SocketError::Unidentifiable(subscription_id)))],
        }
    }
}

} // verus!
