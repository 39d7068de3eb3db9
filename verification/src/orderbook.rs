//! Price levels and the two sorted sides of an order book.

use crate::fixed::{fixed_of, parse_fixed};
use vstd::prelude::*;
use vstd::string::*;

verus! {

/// Side of a book or of a trade.
#[derive(Clone, Copy, Debug, PartialEq, Eq, Structural)]
pub enum Side {
    Buy,
    Sell,
}

/// One price level: the total quantity resting at a price.
///
/// Both fields are fixed-point integers. An `amount` of zero never rests in a
/// book; in an update it asks for the level to be removed.
#[derive(Clone, Copy, Debug, PartialEq, Eq, Structural)]
pub struct Level {
    pub price: u64,
    pub amount: u64,
}

/// The level that the decimal texts of a price and of a quantity write, the
/// price read in `price_decimals` decimals and the quantity in
/// `amount_decimals`, if both are such numbers.
pub open spec fn level_of(
    price: Seq<char>,
    amount: Seq<char>,
    price_decimals: u8,
    amount_decimals: u8,
) -> Option<Level> {
    match (
        fixed_of(vstd::utf8::encode_utf8(price), price_decimals as nat),
        fixed_of(vstd::utf8::encode_utf8(amount), amount_decimals as nat),
    ) {
        (Some(price), Some(amount)) => Some(Level { price, amount }),
        _ => None,
    }
}

/// Reads a level from the decimal texts of its price and its quantity.
/// Returns `None` where either text is no number of the decimals asked for.
pub fn parse_level(
    price: &str,
    amount: &str,
    price_decimals: u8,
    amount_decimals: u8,
) -> (r: Option<Level>)
    ensures
        r == level_of(price@, amount@, price_decimals, amount_decimals),
{
    match parse_fixed(price, price_decimals) {
        Some(price) => match parse_fixed(amount, amount_decimals) {
            Some(amount) => Some(Level { price, amount }),
            None => None,
        },
        None => None,
    }
}

/// Reads the levels of one side of a message, each a pair of decimal texts.
/// Returns `None` where any of the texts is no number.
pub fn parse_levels(
    texts: &Vec<(String, String)>,
    price_decimals: u8,
    amount_decimals: u8,
) -> (r: Option<Vec<Level>>)
    ensures
        match r {
            Some(levels) => {
                &&& levels@.len() == texts@.len()
                &&& forall|i: int|
                    0 <= i < texts@.len() ==> Some(#[trigger] levels@[i]) == level_of(
                        texts@[i].0@,
                        texts@[i].1@,
                        price_decimals,
                        amount_decimals,
                    )
            },
            None => exists|i: int|
                0 <= i < texts@.len() && level_of(
                    (#[trigger] texts@[i]).0@,
                    texts@[i].1@,
                    price_decimals,
                    amount_decimals,
                ) is None,
        },
{
    let mut levels: Vec<Level> = Vec::new();
    let mut i: usize = 0;
    while i < texts.len()
        invariant
            i <= texts@.len(),
            levels@.len() == i,
            forall|j: int|
                0 <= j < i ==> Some(#[trigger] levels@[j]) == level_of(
                    texts@[j].0@,
                    texts@[j].1@,
                    price_decimals,
                    amount_decimals,
                ),
        decreases texts@.len() - i,
    {
        match parse_level(texts[i].0.as_str(), texts[i].1.as_str(), price_decimals, amount_decimals) {
            Some(level) => {
                levels.push(level);
            },
            None => {
                assert(level_of(
                    texts@[i as int].0@,
                    texts@[i as int].1@,
                    price_decimals,
                    amount_decimals,
                ) is None);
                return None;
            },
        }
        i += 1;
    }
    Some(levels)
}

/// Price `a` is listed ahead of price `b`: higher bids first, lower asks first.
pub open spec fn ranks_before(side: Side, a: u64, b: u64) -> bool {
    match side {
        Side::Buy => a > b,
        Side::Sell => a < b,
    }
}

/// Best price first, and no price twice.
pub open spec fn strictly_ordered(side: Side, levels: Seq<Level>) -> bool {
    forall|i: int, j: int|
        0 <= i < j < levels.len() ==> ranks_before(
            side,
            (#[trigger] levels[i]).price,
            (#[trigger] levels[j]).price,
        )
}

/// Every level holds a non-zero quantity.
pub open spec fn all_resting(levels: Seq<Level>) -> bool {
    forall|i: int| 0 <= i < levels.len() ==> (#[trigger] levels[i]).amount > 0
}

/// Some level of `levels` sits at `price`.
pub open spec fn has_price(levels: Seq<Level>, price: u64) -> bool {
    exists|i: int| 0 <= i < levels.len() && (#[trigger] levels[i]).price == price
}

/// The quantity resting at each price of `levels`.
pub open spec fn depth_of(levels: Seq<Level>) -> Map<u64, u64> {
    Map::new(
        |price: u64| has_price(levels, price),
        |price: u64|
            levels[choose|i: int| 0 <= i < levels.len() && (#[trigger] levels[i]).price == price].amount,
    )
}

/// The depth after one level update: a zero quantity clears the price, any other
/// quantity replaces what rested there.
pub open spec fn apply_level(depth: Map<u64, u64>, level: Level) -> Map<u64, u64> {
    if level.amount == 0 {
        depth.remove(level.price)
    } else {
        depth.insert(level.price, level.amount)
    }
}

/// The depth after the updates of `levels`, taken first to last.
pub open spec fn apply_levels(depth: Map<u64, u64>, levels: Seq<Level>) -> Map<u64, u64>
    decreases levels.len(),
{
    if levels.len() == 0 {
        depth
    } else {
        apply_level(apply_levels(depth, levels.drop_last()), levels.last())
    }
}

/// In a strictly ordered sequence each level is the one found at its price.
pub proof fn lemma_depth_entry(side: Side, levels: Seq<Level>, i: int)
    requires
        strictly_ordered(side, levels),
        0 <= i < levels.len(),
    ensures
        depth_of(levels).contains_key(levels[i].price),
        depth_of(levels)[levels[i].price] == levels[i].amount,
{
    let price = levels[i].price;
    let j = choose|j: int| 0 <= j < levels.len() && (#[trigger] levels[j]).price == price;
    if j < i {
        assert(ranks_before(side, levels[j].price, levels[i].price));
    } else if i < j {
        assert(ranks_before(side, levels[i].price, levels[j].price));
    }
}

/// A strictly ordered sequence has depth `depth` when its levels are exactly the
/// entries of `depth`.
pub proof fn lemma_depth_is(side: Side, levels: Seq<Level>, depth: Map<u64, u64>)
    requires
        strictly_ordered(side, levels),
        forall|i: int|
            0 <= i < levels.len() ==> depth.contains_key((#[trigger] levels[i]).price)
                && depth[levels[i].price] == levels[i].amount,
        forall|price: u64| #[trigger] depth.contains_key(price) ==> has_price(levels, price),
    ensures
        depth_of(levels) == depth,
{
    assert forall|price: u64| #[trigger] depth_of(levels).contains_key(price) implies depth.contains_key(
        price,
    ) && depth[price] == depth_of(levels)[price] by {
        let i = choose|i: int| 0 <= i < levels.len() && (#[trigger] levels[i]).price == price;
        lemma_depth_entry(side, levels, i);
    }
    assert(depth_of(levels) =~= depth);
}

/// Two resting, strictly ordered sequences of one side with the same depth are
/// the same sequence: the depth and the side fix the order of the levels.
pub proof fn lemma_depth_fixes_levels(side: Side, a: Seq<Level>, b: Seq<Level>)
    requires
        strictly_ordered(side, a),
        strictly_ordered(side, b),
        depth_of(a) == depth_of(b),
    ensures
        a == b,
    decreases a.len(),
{
    if a.len() == 0 {
        if b.len() > 0 {
            lemma_depth_entry(side, b, 0);
            assert(has_price(a, b[0].price));
        }
        assert(a =~= b);
    } else {
        lemma_depth_entry(side, a, 0);
        assert(has_price(b, a[0].price));
        let k = choose|k: int| 0 <= k < b.len() && (#[trigger] b[k]).price == a[0].price;
        lemma_depth_entry(side, b, k);
        lemma_depth_entry(side, b, 0);
        assert(has_price(a, b[0].price));
        let m = choose|m: int| 0 <= m < a.len() && (#[trigger] a[m]).price == b[0].price;
        if k > 0 {
            assert(ranks_before(side, b[0].price, b[k].price));
            if m > 0 {
                assert(ranks_before(side, a[0].price, a[m].price));
            }
        }
        assert(a[0] == b[0]);
        let ta = a.drop_first();
        let tb = b.drop_first();
        assert(strictly_ordered(side, ta)) by {
            assert forall|i: int, j: int| 0 <= i < j < ta.len() implies ranks_before(
                side,
                (#[trigger] ta[i]).price,
                (#[trigger] ta[j]).price,
            ) by {
                assert(ta[i] == a[i + 1] && ta[j] == a[j + 1]);
            }
        }
        assert(strictly_ordered(side, tb)) by {
            assert forall|i: int, j: int| 0 <= i < j < tb.len() implies ranks_before(
                side,
                (#[trigger] tb[i]).price,
                (#[trigger] tb[j]).price,
            ) by {
                assert(tb[i] == b[i + 1] && tb[j] == b[j + 1]);
            }
        }
        assert(depth_of(ta) == depth_of(tb)) by {
            lemma_depth_without_first(side, a);
            lemma_depth_without_first(side, b);
        }
        lemma_depth_fixes_levels(side, ta, tb);
        assert(a =~= seq![a[0]] + ta);
        assert(b =~= seq![b[0]] + tb);
    }
}

/// Dropping the first level of a strictly ordered sequence clears its price.
pub proof fn lemma_depth_without_first(side: Side, levels: Seq<Level>)
    requires
        strictly_ordered(side, levels),
        levels.len() > 0,
    ensures
        depth_of(levels.drop_first()) == depth_of(levels).remove(levels[0].price),
{
    let tail = levels.drop_first();
    let depth = depth_of(levels).remove(levels[0].price);
    assert forall|i: int, j: int| 0 <= i < j < tail.len() implies ranks_before(
        side,
        (#[trigger] tail[i]).price,
        (#[trigger] tail[j]).price,
    ) by {
        assert(tail[i] == levels[i + 1] && tail[j] == levels[j + 1]);
    }
    assert forall|i: int| 0 <= i < tail.len() implies depth.contains_key(
        (#[trigger] tail[i]).price,
    ) && depth[tail[i].price] == tail[i].amount by {
        assert(tail[i] == levels[i + 1]);
        lemma_depth_entry(side, levels, i + 1);
        assert(ranks_before(side, levels[0].price, levels[i + 1].price));
    }
    assert forall|price: u64| #[trigger] depth.contains_key(price) implies has_price(
        tail,
        price,
    ) by {
        let i = choose|i: int| 0 <= i < levels.len() && (#[trigger] levels[i]).price == price;
        assert(i != 0);
        assert(tail[i - 1] == levels[i]);
    }
    lemma_depth_is(side, tail, depth);
}


/// One side of an order book: its levels, best price first.
///
/// Bids are kept by falling price and asks by rising price, no price rests twice
/// and no level is empty.
#[derive(Debug)]
pub struct OrderBookSide {
    side: Side,
    levels: Vec<Level>,
}

impl View for OrderBookSide {
    type V = Map<u64, u64>;

    /// The quantity resting at each price.
    open spec fn view(&self) -> Map<u64, u64> {
        depth_of(self.spec_levels())
    }
}

/// Whether `a` is listed ahead of `b` on `side`.
pub fn listed_before(side: Side, a: u64, b: u64) -> (r: bool)
    ensures
        r == ranks_before(side, a, b),
{
    match side {
        Side::Buy => a > b,
        Side::Sell => a < b,
    }
}

impl OrderBookSide {
    /// The side these levels rest on.
    pub closed spec fn spec_side(&self) -> Side {
        self.side
    }

    /// The levels, best price first.
    pub closed spec fn spec_levels(&self) -> Seq<Level> {
        self.levels@
    }

    /// The levels are resting and strictly ordered for this side.
    pub open spec fn wf(&self) -> bool {
        &&& strictly_ordered(self.spec_side(), self.spec_levels())
        &&& all_resting(self.spec_levels())
    }

    /// An empty side.
    pub fn new(side: Side) -> (r: Self)
        ensures
            r.wf(),
            r.spec_side() == side,
            r.spec_levels() == Seq::<Level>::empty(),
            r@ == Map::<u64, u64>::empty(),
    {
        let r = OrderBookSide { side, levels: Vec::new() };
        assert(r@ =~= Map::<u64, u64>::empty());
        r
    }

    /// The side holding what is left after the updates of `levels`, taken first
    /// to last from an empty side. Levels of distinct prices and non-zero
    /// quantities are thereby put into the side's order.
    pub fn from_levels(side: Side, levels: &Vec<Level>) -> (r: Self)
        ensures
            r.wf(),
            r.spec_side() == side,
            r@ == apply_levels(Map::empty(), levels@),
    {
        let mut r = OrderBookSide::new(side);
        r.upsert_all(levels);
        r
    }

    pub fn side(&self) -> (r: Side)
        ensures
            r == self.spec_side(),
    {
        self.side
    }

    /// Number of levels.
    pub fn len(&self) -> (r: usize)
        ensures
            r == self.spec_levels().len(),
    {
        self.levels.len()
    }

    /// A copy of the levels, best price first.
    pub fn levels(&self) -> (r: Vec<Level>)
        ensures
            r@ == self.spec_levels(),
    {
        let mut out: Vec<Level> = Vec::new();
        let mut i: usize = 0;
        while i < self.levels.len()
            invariant
                i <= self.levels.len(),
                out@ == self.levels@.take(i as int),
            decreases self.levels.len() - i,
        {
            out.push(self.levels[i]);
            assert(self.levels@.take(i + 1) =~= self.levels@.take(i as int).push(
                self.levels@[i as int],
            ));
            i += 1;
        }
        assert(self.levels@.take(i as int) =~= self.levels@);
        out
    }

    /// The best level: the highest bid or the lowest ask.
    pub fn best(&self) -> (r: Option<Level>)
        ensures
            self.spec_levels().len() == 0 ==> r is None,
            self.spec_levels().len() > 0 ==> r == Some(self.spec_levels()[0]),
    {
        if self.levels.len() == 0 {
            None
        } else {
            Some(self.levels[0])
        }
    }

    /// The index at which `price` rests or would be put: every level before it
    /// is listed ahead of `price`, and the level at it is not.
    fn position(&self, price: u64) -> (k: usize)
        requires
            self.wf(),
        ensures
            k <= self.spec_levels().len(),
            forall|i: int|
                0 <= i < k ==> ranks_before(
                    self.spec_side(),
                    (#[trigger] self.spec_levels()[i]).price,
                    price,
                ),
            k < self.spec_levels().len() ==> !ranks_before(
                self.spec_side(),
                self.spec_levels()[k as int].price,
                price,
            ),
    {
        let mut k: usize = 0;
        while k < self.levels.len() && listed_before(self.side, self.levels[k].price, price)
            invariant
                k <= self.levels.len(),
                forall|i: int|
                    0 <= i < k ==> ranks_before(self.side, (#[trigger] self.levels@[i]).price, price),
            decreases self.levels.len() - k,
        {
            k += 1;
        }
        k
    }

    /// The quantity resting at `price`, if any does.
    pub fn amount_at(&self, price: u64) -> (r: Option<u64>)
        requires
            self.wf(),
        ensures
            r is Some <==> self@.contains_key(price),
            r is Some ==> r == Some(self@[price]),
    {
        let k = self.position(price);
        if k < self.levels.len() && self.levels[k].price == price {
            proof {
                lemma_depth_entry(self.side, self.levels@, k as int);
            }
            Some(self.levels[k].amount)
        } else {
            proof {
                if has_price(self.levels@, price) {
                    let i = choose|i: int|
                        0 <= i < self.levels@.len() && (#[trigger] self.levels@[i]).price == price;
                    if i < k {
                        assert(ranks_before(self.side, self.levels@[i].price, price));
                    } else if i > k {
                        assert(ranks_before(
                            self.side,
                            self.levels@[k as int].price,
                            self.levels@[i].price,
                        ));
                    }
                }
            }
            None
        }
    }

    /// Sets the quantity resting at the level's price; a quantity of zero takes
    /// the price out of the side. Every other price is left as it was.
    pub fn upsert(&mut self, level: Level)
        requires
            old(self).wf(),
        ensures
            final(self).wf(),
            final(self).spec_side() == old(self).spec_side(),
            final(self)@ == apply_level(old(self)@, level),
    {
        let k = self.position(level.price);
        let ghost before = self.levels@;
        let ghost side = self.side;
        let ghost depth = apply_level(depth_of(before), level);
        if k < self.levels.len() && self.levels[k].price == level.price {
            if level.amount == 0 {
                self.levels.remove(k);
                proof {
                    let after = self.levels@;
                    assert forall|i: int, j: int| 0 <= i < j < after.len() implies ranks_before(
                        side,
                        (#[trigger] after[i]).price,
                        (#[trigger] after[j]).price,
                    ) by {
                        let bi = if i < k { i } else { i + 1 };
                        let bj = if j < k { j } else { j + 1 };
                        assert(after[i] == before[bi] && after[j] == before[bj]);
                    }
                    assert forall|i: int| 0 <= i < after.len() implies (#[trigger] after[i]).amount
                        > 0 by {
                        let bi = if i < k { i } else { i + 1 };
                        assert(after[i] == before[bi]);
                    }
                    assert forall|i: int| 0 <= i < after.len() implies depth.contains_key(
                        (#[trigger] after[i]).price,
                    ) && depth[after[i].price] == after[i].amount by {
                        let bi = if i < k { i } else { i + 1 };
                        assert(after[i] == before[bi]);
                        lemma_depth_entry(side, before, bi);
                        if bi < k {
                            assert(ranks_before(side, before[bi].price, before[k as int].price));
                        } else {
                            assert(ranks_before(side, before[k as int].price, before[bi].price));
                        }
                    }
                    assert forall|price: u64| #[trigger] depth.contains_key(price) implies has_price(
                        after,
                        price,
                    ) by {
                        let bi = choose|i: int|
                            0 <= i < before.len() && (#[trigger] before[i]).price == price;
                        assert(bi != k);
                        let i = if bi < k { bi } else { bi - 1 };
                        assert(after[i] == before[bi]);
                    }
                    lemma_depth_is(side, after, depth);
                }
            } else {
                self.levels.set(k, level);
                proof {
                    let after = self.levels@;
                    assert forall|i: int, j: int| 0 <= i < j < after.len() implies ranks_before(
                        side,
                        (#[trigger] after[i]).price,
                        (#[trigger] after[j]).price,
                    ) by {
                        assert(after[i].price == before[i].price && after[j].price
                            == before[j].price);
                    }
                    assert forall|i: int| 0 <= i < after.len() implies (#[trigger] after[i]).amount
                        > 0 by {
                        if i != k {
                            assert(after[i] == before[i]);
                        }
                    }
                    assert forall|i: int| 0 <= i < after.len() implies depth.contains_key(
                        (#[trigger] after[i]).price,
                    ) && depth[after[i].price] == after[i].amount by {
                        if i != k {
                            assert(after[i] == before[i]);
                            lemma_depth_entry(side, before, i);
                            if i < k {
                                assert(ranks_before(side, before[i].price, before[k as int].price));
                            } else {
                                assert(ranks_before(side, before[k as int].price, before[i].price));
                            }
                        }
                    }
                    assert forall|price: u64| #[trigger] depth.contains_key(price) implies has_price(
                        after,
                        price,
                    ) by {
                        if price == level.price {
                            assert(after[k as int].price == price);
                        } else {
                            let bi = choose|i: int|
                                0 <= i < before.len() && (#[trigger] before[i]).price == price;
                            assert(after[bi].price == price);
                        }
                    }
                    lemma_depth_is(side, after, depth);
                }
            }
        } else {
            proof {
                if has_price(before, level.price) {
                    let i = choose|i: int|
                        0 <= i < before.len() && (#[trigger] before[i]).price == level.price;
                    if i < k {
                        assert(ranks_before(side, before[i].price, level.price));
                    } else if i > k {
                        assert(ranks_before(side, before[k as int].price, before[i].price));
                    }
                }
                assert(!depth_of(before).contains_key(level.price));
            }
            if level.amount != 0 {
                self.levels.insert(k, level);
                proof {
                    let after = self.levels@;
                    assert forall|i: int| 0 <= i < after.len() && i != k implies (#[trigger] after[i])
                        == before[if i < k { i } else { i - 1 }] by {}
                    assert forall|i: int, j: int| 0 <= i < j < after.len() implies ranks_before(
                        side,
                        (#[trigger] after[i]).price,
                        (#[trigger] after[j]).price,
                    ) by {
                        let bi = if i < k { i } else { i - 1 };
                        let bj = if j < k { j } else { j - 1 };
                        if i == k {
                            assert(after[j] == before[bj]);
                            if bj > k {
                                assert(ranks_before(side, before[k as int].price, before[bj].price));
                            }
                        } else if j == k {
                            assert(after[i] == before[bi]);
                        } else {
                            assert(after[i] == before[bi] && after[j] == before[bj]);
                        }
                    }
                    assert forall|i: int| 0 <= i < after.len() implies (#[trigger] after[i]).amount
                        > 0 by {
                        if i != k {
                            assert(after[i] == before[if i < k { i } else { i - 1 }]);
                        }
                    }
                    assert forall|i: int| 0 <= i < after.len() implies depth.contains_key(
                        (#[trigger] after[i]).price,
                    ) && depth[after[i].price] == after[i].amount by {
                        if i != k {
                            let bi = if i < k { i } else { i - 1 };
                            assert(after[i] == before[bi]);
                            lemma_depth_entry(side, before, bi);
                        }
                    }
                    assert forall|price: u64| #[trigger] depth.contains_key(price) implies has_price(
                        after,
                        price,
                    ) by {
                        if price == level.price {
                            assert(after[k as int].price == price);
                        } else {
                            let bi = choose|i: int|
                                0 <= i < before.len() && (#[trigger] before[i]).price == price;
                            let i = if bi < k { bi } else { bi + 1 };
                            assert(after[i] == before[bi]);
                        }
                    }
                    lemma_depth_is(side, after, depth);
                }
            } else {
                assert(depth_of(before).remove(level.price) =~= depth_of(before));
            }
        }
    }

    /// Applies the updates of `levels`, first to last.
    pub fn upsert_all(&mut self, levels: &Vec<Level>)
        requires
            old(self).wf(),
        ensures
            final(self).wf(),
            final(self).spec_side() == old(self).spec_side(),
            final(self)@ == apply_levels(old(self)@, levels@),
    {
        let mut i: usize = 0;
        while i < levels.len()
            invariant
                i <= levels.len(),
                self.wf(),
                self.spec_side() == old(self).spec_side(),
                self@ == apply_levels(old(self)@, levels@.take(i as int)),
            decreases levels.len() - i,
        {
            self.upsert(levels[i]);
            assert(levels@.take(i + 1).drop_last() =~= levels@.take(i as int));
            i += 1;
        }
        assert(levels@.take(i as int) =~= levels@);
    }
}


/// The bids and asks of one instrument, as of an update sequence number.
#[derive(Debug)]
pub struct OrderBook {
    sequence: u64,
    bids: OrderBookSide,
    asks: OrderBookSide,
}

/// An order book as plain values: the quantity resting at each bid and ask
/// price, and the sequence number of the last update merged into it.
pub struct BookView {
    pub sequence: u64,
    pub bids: Map<u64, u64>,
    pub asks: Map<u64, u64>,
}

impl View for OrderBook {
    type V = BookView;

    open spec fn view(&self) -> BookView {
        BookView { sequence: self.spec_sequence(), bids: self.spec_bids()@, asks: self.spec_asks()@ }
    }
}

impl OrderBook {
    pub closed spec fn spec_sequence(&self) -> u64 {
        self.sequence
    }

    pub closed spec fn spec_bids(&self) -> OrderBookSide {
        self.bids
    }

    pub closed spec fn spec_asks(&self) -> OrderBookSide {
        self.asks
    }

    /// Bids fall and asks rise in price, no price rests twice on a side, and no
    /// level is empty.
    pub open spec fn wf(&self) -> bool {
        &&& self.spec_bids().wf()
        &&& self.spec_asks().wf()
        &&& self.spec_bids().spec_side() == Side::Buy
        &&& self.spec_asks().spec_side() == Side::Sell
    }

    /// The book that a snapshot describes. The snapshot's levels may come in any
    /// order; where one repeats a price the later level counts, and empty levels
    /// are left out.
    pub fn new(sequence: u64, bids: &Vec<Level>, asks: &Vec<Level>) -> (r: Self)
        ensures
            r.wf(),
            r@ == (BookView {
                sequence,
                bids: apply_levels(Map::empty(), bids@),
                asks: apply_levels(Map::empty(), asks@),
            }),
    {
        OrderBook {
            sequence,
            bids: OrderBookSide::from_levels(Side::Buy, bids),
            asks: OrderBookSide::from_levels(Side::Sell, asks),
        }
    }

    /// Sequence number of the last update merged into the book.
    pub fn sequence(&self) -> (r: u64)
        ensures
            r == self.spec_sequence(),
    {
        self.sequence
    }

    pub fn bids(&self) -> (r: &OrderBookSide)
        ensures
            *r == self.spec_bids(),
    {
        &self.bids
    }

    pub fn asks(&self) -> (r: &OrderBookSide)
        ensures
            *r == self.spec_asks(),
    {
        &self.asks
    }

    /// Merges the levels of one update into the book and moves it to `sequence`.
    pub fn apply(&mut self, sequence: u64, bids: &Vec<Level>, asks: &Vec<Level>)
        requires
            old(self).wf(),
        ensures
            final(self).wf(),
            final(self)@ == (BookView {
                sequence,
                bids: apply_levels(old(self)@.bids, bids@),
                asks: apply_levels(old(self)@.asks, asks@),
            }),
    {
        self.bids.upsert_all(bids);
        self.asks.upsert_all(asks);
        self.sequence = sequence;
    }

    /// A copy of the book as it stands.
    pub fn snapshot(&self) -> (r: OrderBook)
        ensures
            r@ == self@,
            r.spec_bids().spec_levels() == self.spec_bids().spec_levels(),
            r.spec_asks().spec_levels() == self.spec_asks().spec_levels(),
            r.spec_bids().spec_side() == self.spec_bids().spec_side(),
            r.spec_asks().spec_side() == self.spec_asks().spec_side(),
            self.wf() ==> r.wf(),
    {
        OrderBook {
            sequence: self.sequence,
            bids: OrderBookSide { side: self.bids.side, levels: self.bids.levels() },
            asks: OrderBookSide { side: self.asks.side, levels: self.asks.levels() },
        }
    }
}

} // verus!
