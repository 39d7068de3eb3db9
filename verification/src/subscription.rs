//! What a feed is subscribed to: the venue, the instrument and the kind of stream.

use crate::text::{
    lemma_text_before_total, lemma_text_before_transitive, str_before, text_before,
};
use vstd::prelude::*;

verus! {

/// The venue a connector speaks to.
#[derive(Clone, Copy, Debug, PartialEq, Eq, Hash, Structural)]
pub enum ExchangeId {
    BinanceSpot,
    BinanceFuturesUsd,
    Bitfinex,
    Coinbase,
    Kraken,
    Okx,
    UniswapX,
}

impl ExchangeId {
    /// The venue's place in the order of venues.
    pub open spec fn rank(&self) -> int {
        match self {
            ExchangeId::BinanceSpot => 0,
            ExchangeId::BinanceFuturesUsd => 1,
            ExchangeId::Bitfinex => 2,
            ExchangeId::Coinbase => 3,
            ExchangeId::Kraken => 4,
            ExchangeId::Okx => 5,
            ExchangeId::UniswapX => 6,
        }
    }

    pub fn position(&self) -> (r: u8)
        ensures
            r == self.rank(),
    {
        match self {
            ExchangeId::BinanceSpot => 0,
            ExchangeId::BinanceFuturesUsd => 1,
            ExchangeId::Bitfinex => 2,
            ExchangeId::Coinbase => 3,
            ExchangeId::Kraken => 4,
            ExchangeId::Okx => 5,
            ExchangeId::UniswapX => 6,
        }
    }

    /// The venue's name in snake case.
    pub fn as_str(&self) -> (r: &'static str)
        ensures
            r@ == self.name(),
    {
        match self {
            ExchangeId::BinanceSpot => "binance_spot",
            ExchangeId::BinanceFuturesUsd => "binance_futures_usd",
            ExchangeId::Bitfinex => "bitfinex",
            ExchangeId::Coinbase => "coinbase",
            ExchangeId::Kraken => "kraken",
            ExchangeId::Okx => "okx",
            ExchangeId::UniswapX => "uniswapx",
        }
    }

    pub open spec fn name(&self) -> Seq<char> {
        match self {
            ExchangeId::BinanceSpot => "binance_spot"@,
            ExchangeId::BinanceFuturesUsd => "binance_futures_usd"@,
            ExchangeId::Bitfinex => "bitfinex"@,
            ExchangeId::Coinbase => "coinbase"@,
            ExchangeId::Kraken => "kraken"@,
            ExchangeId::Okx => "okx"@,
            ExchangeId::UniswapX => "uniswapx"@,
        }
    }
}

/// How an instrument is traded.
#[derive(Clone, Copy, Debug, PartialEq, Eq, Hash, Structural)]
pub enum InstrumentKind {
    Spot,
    Perpetual,
    SpotMargin,
    IntentOrder,
}

impl InstrumentKind {
    /// The kind's place in the order of kinds.
    pub open spec fn rank(&self) -> int {
        match self {
            InstrumentKind::Spot => 0,
            InstrumentKind::Perpetual => 1,
            InstrumentKind::SpotMargin => 2,
            InstrumentKind::IntentOrder => 3,
        }
    }

    pub fn position(&self) -> (r: u8)
        ensures
            r == self.rank(),
    {
        match self {
            InstrumentKind::Spot => 0,
            InstrumentKind::Perpetual => 1,
            InstrumentKind::SpotMargin => 2,
            InstrumentKind::IntentOrder => 3,
        }
    }
}

/// A tradable pair.
#[derive(Clone, Debug, PartialEq, Eq, Hash)]
pub struct Instrument {
    pub base: String,
    pub quote: String,
    pub kind: InstrumentKind,
}

/// An instrument as plain values.
pub struct InstrumentView {
    pub base: Seq<char>,
    pub quote: Seq<char>,
    pub kind: InstrumentKind,
}

impl View for Instrument {
    type V = InstrumentView;

    open spec fn view(&self) -> InstrumentView {
        InstrumentView { base: self.base@, quote: self.quote@, kind: self.kind }
    }
}

impl Instrument {
    pub fn new(base: String, quote: String, kind: InstrumentKind) -> (r: Self)
        ensures
            r@ == (InstrumentView { base: base@, quote: quote@, kind }),
    {
        Instrument { base, quote, kind }
    }

    /// Whether both name the same pair traded the same way.
    pub fn same(&self, other: &Instrument) -> (r: bool)
        ensures
            r == (self@ == other@),
    {
        let r = self.base == other.base && self.quote == other.quote && self.kind == other.kind;
        assert(r == (self@ == other@)) by {
            if self@ == other@ {
                assert(self.base@ == self@.base);
            }
        }
        r
    }

    /// An independent copy.
    pub fn duplicate(&self) -> (r: Instrument)
        ensures
            r@ == self@,
    {
        Instrument { base: self.base.clone(), quote: self.quote.clone(), kind: self.kind }
    }
}

/// The channel or topic name by which a venue tags the messages of one feed.
#[derive(Clone, Debug, PartialEq, Eq, Hash)]
pub struct SubscriptionId(pub String);

impl View for SubscriptionId {
    type V = Seq<char>;

    open spec fn view(&self) -> Seq<char> {
        self.0@
    }
}

impl SubscriptionId {
    pub fn same(&self, other: &SubscriptionId) -> (r: bool)
        ensures
            r == (self@ == other@),
    {
        self.0 == other.0
    }

    pub fn duplicate(&self) -> (r: SubscriptionId)
        ensures
            r@ == self@,
    {
        SubscriptionId(self.0.clone())
    }
}

/// The kind of stream a subscription asks for.
#[derive(Clone, Copy, Debug, PartialEq, Eq, Hash, Structural)]
pub enum StreamKind {
    PublicTrades,
    OrderBooksL2,
    OpenOrders,
    IntentOrders,
}

impl StreamKind {
    /// The kind's place in the order of kinds.
    pub open spec fn rank(&self) -> int {
        match self {
            StreamKind::PublicTrades => 0,
            StreamKind::OrderBooksL2 => 1,
            StreamKind::OpenOrders => 2,
            StreamKind::IntentOrders => 3,
        }
    }

    pub fn position(&self) -> (r: u8)
        ensures
            r == self.rank(),
    {
        match self {
            StreamKind::PublicTrades => 0,
            StreamKind::OrderBooksL2 => 1,
            StreamKind::OpenOrders => 2,
            StreamKind::IntentOrders => 3,
        }
    }
}

/// Stream of intent orders as they are opened and closed.
#[derive(Clone, Copy, Debug, PartialEq, Eq, Hash, Structural)]
pub struct IntentOrders;

/// Stream of the open orders of a venue.
#[derive(Clone, Copy, Debug, PartialEq, Eq, Hash, Structural)]
pub struct OpenOrders;

/// One feed: a stream of one kind for one instrument of one venue.
#[derive(Clone, Debug, PartialEq, Eq, Hash)]
pub struct Subscription {
    pub exchange: ExchangeId,
    pub instrument: Instrument,
    pub kind: StreamKind,
}

/// A subscription as plain values.
pub struct SubscriptionView {
    pub exchange: ExchangeId,
    pub instrument: InstrumentView,
    pub kind: StreamKind,
}

impl View for Subscription {
    type V = SubscriptionView;

    open spec fn view(&self) -> SubscriptionView {
        SubscriptionView { exchange: self.exchange, instrument: self.instrument@, kind: self.kind }
    }
}

impl Subscription {
    pub fn new(exchange: ExchangeId, instrument: Instrument, kind: StreamKind) -> (r: Self)
        ensures
            r.exchange == exchange,
            r.instrument == instrument,
            r.kind == kind,
    {
        Subscription { exchange, instrument, kind }
    }

    /// Whether both ask for the same feed.
    pub fn same(&self, other: &Subscription) -> (r: bool)
        ensures
            r == (self@ == other@),
    {
        self.exchange == other.exchange && self.instrument.same(&other.instrument) && self.kind
            == other.kind
    }
}


/// Whether subscription `a` sorts before `b`: by venue, then by base and quote
/// symbol, then by the kind of instrument, then by the kind of stream.
pub open spec fn subscription_before(a: SubscriptionView, b: SubscriptionView) -> bool {
    if a.exchange != b.exchange {
        a.exchange.rank() < b.exchange.rank()
    } else if a.instrument.base != b.instrument.base {
        text_before(a.instrument.base, b.instrument.base)
    } else if a.instrument.quote != b.instrument.quote {
        text_before(a.instrument.quote, b.instrument.quote)
    } else if a.instrument.kind != b.instrument.kind {
        a.instrument.kind.rank() < b.instrument.kind.rank()
    } else {
        a.kind.rank() < b.kind.rank()
    }
}

/// Of two different subscriptions exactly one sorts before the other, and none
/// sorts before itself.
pub proof fn lemma_subscription_order_total(a: SubscriptionView, b: SubscriptionView)
    ensures
        a != b ==> (subscription_before(a, b) != subscription_before(b, a)),
        a == b ==> !subscription_before(a, b),
{
    lemma_text_before_total(a.instrument.base, b.instrument.base);
    lemma_text_before_total(a.instrument.quote, b.instrument.quote);
}

/// The order of subscriptions is transitive.
pub proof fn lemma_subscription_order_transitive(
    a: SubscriptionView,
    b: SubscriptionView,
    c: SubscriptionView,
)
    requires
        subscription_before(a, b),
        subscription_before(b, c),
    ensures
        subscription_before(a, c),
{
    lemma_text_before_total(a.instrument.base, b.instrument.base);
    lemma_text_before_total(b.instrument.base, c.instrument.base);
    lemma_text_before_total(a.instrument.base, c.instrument.base);
    lemma_text_before_total(a.instrument.quote, b.instrument.quote);
    lemma_text_before_total(b.instrument.quote, c.instrument.quote);
    lemma_text_before_total(a.instrument.quote, c.instrument.quote);
    if text_before(a.instrument.base, b.instrument.base) && text_before(
        b.instrument.base,
        c.instrument.base,
    ) {
        lemma_text_before_transitive(a.instrument.base, b.instrument.base, c.instrument.base);
    }
    if text_before(a.instrument.quote, b.instrument.quote) && text_before(
        b.instrument.quote,
        c.instrument.quote,
    ) {
        lemma_text_before_transitive(a.instrument.quote, b.instrument.quote, c.instrument.quote);
    }
}

impl Subscription {
    /// Whether this subscription sorts before `other`.
    pub fn before(&self, other: &Subscription) -> (r: bool)
        ensures
            r == subscription_before(self@, other@),
    {
        if self.exchange != other.exchange {
            self.exchange.position() < other.exchange.position()
        } else if self.instrument.base != other.instrument.base {
            str_before(self.instrument.base.as_str(), other.instrument.base.as_str())
        } else if self.instrument.quote != other.instrument.quote {
            str_before(self.instrument.quote.as_str(), other.instrument.quote.as_str())
        } else if self.instrument.kind != other.instrument.kind {
            self.instrument.kind.position() < other.instrument.kind.position()
        } else {
            self.kind.position() < other.kind.position()
        }
    }
}

/// Some subscription among the first `n` of `subscriptions` asks for `feed`.
pub open spec fn asks_for(subscriptions: Seq<Subscription>, n: int, feed: SubscriptionView) -> bool {
    exists|i: int| 0 <= i < n && 0 <= i < subscriptions.len() && (#[trigger] subscriptions[i])@ == feed
}

/// Each subscription sorts before all that follow it; so none comes twice.
pub open spec fn strictly_sorted(subscriptions: Seq<Subscription>) -> bool {
    forall|i: int, j: int|
        0 <= i < j < subscriptions.len() ==> subscription_before(
            (#[trigger] subscriptions[i])@,
            (#[trigger] subscriptions[j])@,
        )
}

/// Puts subscriptions in order and drops those that ask for a feed that another
/// one asks for already. The feeds asked for stay the same.
pub fn sort_and_dedup(subscriptions: Vec<Subscription>) -> (r: Vec<Subscription>)
    ensures
        strictly_sorted(r@),
        forall|feed: SubscriptionView|
            asks_for(r@, r@.len() as int, feed) <==> asks_for(
                subscriptions@,
                subscriptions@.len() as int,
                feed,
            ),
{
    let mut sorted: Vec<Subscription> = Vec::new();
    let ghost all = subscriptions@;
    for subscription in it: subscriptions
        invariant
            it.seq() == all,
            strictly_sorted(sorted@),
            forall|feed: SubscriptionView|
                asks_for(sorted@, sorted@.len() as int, feed) <==> asks_for(
                    all,
                    it.index() as int,
                    feed,
                ),
    {
        let ghost n = it.index() as int;
        let ghost before = sorted@;
        let ghost new = subscription@;
        assert(subscription == all[n]);
        let mut k: usize = 0;
        while k < sorted.len() && sorted[k].before(&subscription)
            invariant
                k <= sorted@.len(),
                sorted@ == before,
                new == subscription@,
                forall|i: int| 0 <= i < k ==> subscription_before((#[trigger] sorted@[i])@, new),
            decreases sorted@.len() - k,
        {
            k += 1;
        }
        if k < sorted.len() && sorted[k].same(&subscription) {
            assert forall|feed: SubscriptionView|
                asks_for(sorted@, sorted@.len() as int, feed) <==> asks_for(
                    all,
                    n + 1,
                    feed,
                ) by {
                assert(asks_for(before, before.len() as int, feed) <==> asks_for(all, n, feed));
                if asks_for(all, n + 1, feed) && !asks_for(all, n, feed) {
                    let i = choose|i: int|
                        0 <= i < n + 1 && 0 <= i < all.len() && (#[trigger] all[i])@ == feed;
                    assert(i == n);
                    assert(before[k as int]@ == feed);
                }
                if asks_for(all, n, feed) {
                    let i = choose|i: int|
                        0 <= i < n && 0 <= i < all.len() && (#[trigger] all[i])@ == feed;
                    assert(0 <= i < n + 1 && all[i]@ == feed);
                }
            }
        } else {
            sorted.insert(k, subscription);
            proof {
                let after = sorted@;
                assert forall|i: int| 0 <= i < after.len() && i != k implies (#[trigger] after[i])
                    == before[if i < k { i } else { i - 1 }] by {}
                assert(after[k as int] == subscription);
                assert forall|j: int| k <= j < before.len() implies subscription_before(
                    new,
                    (#[trigger] before[j])@,
                ) by {
                    lemma_subscription_order_total(before[k as int]@, new);
                    if j > k {
                        assert(subscription_before(before[k as int]@, before[j]@));
                        lemma_subscription_order_transitive(new, before[k as int]@, before[j]@);
                    }
                }
                assert forall|i: int, j: int| 0 <= i < j < after.len() implies subscription_before(
                    (#[trigger] after[i])@,
                    (#[trigger] after[j])@,
                ) by {
                    let bi = if i < k { i } else { i - 1 };
                    let bj = if j < k { j } else { j - 1 };
                    if i == k {
                        assert(after[j] == before[bj]);
                    } else if j == k {
                        assert(after[i] == before[bi]);
                    } else {
                        assert(after[i] == before[bi] && after[j] == before[bj]);
                    }
                }
                assert forall|feed: SubscriptionView|
                    asks_for(after, after.len() as int, feed) <==> asks_for(all, n + 1, feed) by {
                    assert(asks_for(before, before.len() as int, feed) <==> asks_for(
                        all,
                        n,
                        feed,
                    ));
                    if asks_for(after, after.len() as int, feed) {
                        let i = choose|i: int|
                            0 <= i < after.len() && 0 <= i < after.len() && (#[trigger] after[i])@
                                == feed;
                        if i == k {
                            assert(all[n]@ == feed);
                        } else {
                            let bi = if i < k { i } else { i - 1 };
                            assert(before[bi]@ == feed);
                            assert(asks_for(before, before.len() as int, feed));
                            let m = choose|m: int|
                                0 <= m < n && 0 <= m < all.len() && (#[trigger] all[m])@ == feed;
                            assert(0 <= m < n + 1 && all[m]@ == feed);
                        }
                    }
                    if asks_for(all, n + 1, feed) {
                        let m = choose|m: int|
                            0 <= m < n + 1 && 0 <= m < all.len() && (#[trigger] all[m])@ == feed;
                        if m == n {
                            assert(after[k as int]@ == feed);
                        } else {
                            assert(asks_for(all, n, feed));
                            let bi = choose|i: int|
                                0 <= i < before.len() && 0 <= i < before.len() && (
                                #[trigger] before[i])@ == feed;
                            let i = if bi < k { bi } else { bi + 1 };
                            assert(after[i] == before[bi]);
                        }
                    }
                }
            }
        }
    }
    sorted
}

} // verus!
