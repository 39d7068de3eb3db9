//! Tracking the open orders of the venue from one poll to the next.

use crate::dex::uni_order::{UniOrder, UniOrderView};
use vstd::prelude::*;

verus! {

/// Some order of `orders` has the hash `hash`.
pub open spec fn has_hash(orders: Seq<UniOrder>, hash: Seq<char>) -> bool {
    exists|i: int| 0 <= i < orders.len() && (#[trigger] orders[i]).order_hash@ == hash
}

/// The orders of `orders` whose hash some order of `others` has, if `keep`, or
/// whose hash none has, if not; in the order in which they stand.
pub open spec fn selected(
    orders: Seq<UniOrder>,
    others: Seq<UniOrder>,
    keep: bool,
) -> Seq<UniOrderView>
    decreases orders.len(),
{
    if orders.len() == 0 {
        Seq::empty()
    } else {
        let head = selected(orders.drop_last(), others, keep);
        if has_hash(others, orders.last().order_hash@) == keep {
            head.push(orders.last()@)
        } else {
            head
        }
    }
}

/// The orders that are newly open: those of `new_orders` that `open_orders` does
/// not hold yet.
pub open spec fn newly_open(
    open_orders: Seq<UniOrder>,
    new_orders: Seq<UniOrder>,
) -> Seq<UniOrderView> {
    selected(new_orders, open_orders, false)
}

/// The orders that are still open: those of `open_orders` that `new_orders`
/// still lists. The others were filled or cancelled.
pub open spec fn still_open(
    open_orders: Seq<UniOrder>,
    new_orders: Seq<UniOrder>,
) -> Seq<UniOrderView> {
    selected(open_orders, new_orders, true)
}

/// The orders that are gone: those of `open_orders` that `new_orders` no longer
/// lists.
pub open spec fn no_longer_open(
    open_orders: Seq<UniOrder>,
    new_orders: Seq<UniOrder>,
) -> Seq<UniOrderView> {
    selected(open_orders, new_orders, false)
}

/// The orders as plain values.
pub open spec fn views(orders: Seq<UniOrder>) -> Seq<UniOrderView> {
    orders.map_values(|o: UniOrder| o@)
}

/// Whether some order of `orders` has the hash `hash`.
pub fn contains_hash(orders: &Vec<UniOrder>, hash: &String) -> (r: bool)
    ensures
        r == has_hash(orders@, hash@),
{
    let mut i: usize = 0;
    while i < orders.len()
        invariant
            i <= orders.len(),
            forall|j: int| 0 <= j < i ==> (#[trigger] orders@[j]).order_hash@ != hash@,
        decreases orders.len() - i,
    {
        if orders[i].order_hash == *hash {
            return true;
        }
        i += 1;
    }
    false
}

/// Copies of the orders of `orders` whose hash is, or is not, among `others`.
fn select(orders: &Vec<UniOrder>, others: &Vec<UniOrder>, keep: bool) -> (r: Vec<UniOrder>)
    ensures
        views(r@) == selected(orders@, others@, keep),
{
    let mut r: Vec<UniOrder> = Vec::new();
    let mut i: usize = 0;
    assert(views(r@) =~= selected(orders@.take(0), others@, keep));
    while i < orders.len()
        invariant
            i <= orders.len(),
            views(r@) == selected(orders@.take(i as int), others@, keep),
        decreases orders.len() - i,
    {
        let ghost before = r@;
        assert(orders@.take(i + 1).drop_last() =~= orders@.take(i as int));
        assert(orders@.take(i + 1).last() == orders@[i as int]);
        if contains_hash(others, &orders[i].order_hash) == keep {
            r.push(orders[i].duplicate());
            assert(views(r@) =~= views(before).push(orders@[i as int]@));
        }
        i += 1;
    }
    assert(orders@.take(i as int) =~= orders@);
    r
}

/// The orders of `new_orders` that `open_orders` does not hold yet, in the
/// order in which they are listed.
pub fn diff(open_orders: &Vec<UniOrder>, new_orders: &Vec<UniOrder>) -> (r: Vec<UniOrder>)
    ensures
        views(r@) == newly_open(open_orders@, new_orders@),
{
    select(new_orders, open_orders, false)
}

/// The orders of `open_orders` that `new_orders` no longer lists, in the order
/// in which they were held: they were filled or cancelled.
pub fn vanished(open_orders: &Vec<UniOrder>, new_orders: &Vec<UniOrder>) -> (r: Vec<UniOrder>)
    ensures
        views(r@) == no_longer_open(open_orders@, new_orders@),
{
    select(open_orders, new_orders, false)
}

/// Takes in a fresh list of the venue's open orders. Returns the newly opened
/// ones, and brings the orders held so far up to date: those that the fresh list no
/// longer holds are dropped, the others stay in their order, and the newly
/// opened ones follow them.
pub fn filter_open_orders(
    open_orders: &mut Vec<UniOrder>,
    new_orders: &Vec<UniOrder>,
) -> (r: Vec<UniOrder>)
    ensures
        views(r@) == newly_open(old(open_orders)@, new_orders@),
        views(final(open_orders)@) == still_open(old(open_orders)@, new_orders@) + newly_open(
            old(open_orders)@,
            new_orders@,
        ),
{
    let filtered_orders = diff(open_orders, new_orders);
    let mut retained = select(open_orders, new_orders, true);
    let ghost kept = retained@;
    let mut i: usize = 0;
    while i < filtered_orders.len()
        invariant
            i <= filtered_orders.len(),
            views(retained@) == views(kept) + views(filtered_orders@).take(i as int),
        decreases filtered_orders.len() - i,
    {
        let ghost before = retained@;
        retained.push(filtered_orders[i].duplicate());
        assert(views(retained@) =~= views(before).push(filtered_orders@[i as int]@));
        assert(views(filtered_orders@).take(i + 1) =~= views(filtered_orders@).take(
            i as int,
        ).push(filtered_orders@[i as int]@));
        i += 1;
    }
    assert(views(filtered_orders@).take(i as int) =~= views(filtered_orders@));
    *open_orders = retained;
    filtered_orders
}


/// Some order among `orders` has the hash `hash`.
pub open spec fn lists(orders: Seq<UniOrderView>, hash: Seq<char>) -> bool {
    exists|i: int| 0 <= i < orders.len() && (#[trigger] orders[i]).order_hash == hash
}

/// A selection holds a hash exactly when the orders it was made from hold it
/// and the hash stands among the others as the selection asks.
pub proof fn lemma_selected_hashes(
    orders: Seq<UniOrder>,
    others: Seq<UniOrder>,
    keep: bool,
    hash: Seq<char>,
)
    ensures
        lists(selected(orders, others, keep), hash) <==> has_hash(orders, hash) && has_hash(
            others,
            hash,
        ) == keep,
    decreases orders.len(),
{
    if orders.len() > 0 {
        let head = orders.drop_last();
        let last = orders.last();
        lemma_selected_hashes(head, others, keep, hash);
        let chosen = selected(orders, others, keep);
        let before = selected(head, others, keep);
        if lists(chosen, hash) {
            let i = choose|i: int| 0 <= i < chosen.len() && (#[trigger] chosen[i]).order_hash == hash;
            if i < before.len() {
                assert(before[i] == chosen[i]);
                assert(lists(before, hash));
                let j = choose|j: int| 0 <= j < head.len() && (#[trigger] head[j]).order_hash@ == hash;
                assert(orders[j] == head[j]);
            } else {
                assert(chosen[i] == last@);
                assert(orders[orders.len() - 1].order_hash@ == hash);
            }
        }
        if has_hash(orders, hash) && has_hash(others, hash) == keep {
            let j = choose|j: int| 0 <= j < orders.len() && (#[trigger] orders[j]).order_hash@ == hash;
            if j < head.len() {
                assert(head[j] == orders[j]);
                assert(lists(before, hash));
                let i = choose|i: int|
                    0 <= i < before.len() && (#[trigger] before[i]).order_hash == hash;
                assert(chosen[i] == before[i]);
            } else {
                assert(chosen[chosen.len() - 1] == last@);
            }
        }
    }
}

/// After a fresh list was taken in, the orders held are those of the list: an
/// order is held exactly when the list holds an order of its hash.
pub proof fn lemma_held_orders_are_the_listed(
    open_orders: Seq<UniOrder>,
    new_orders: Seq<UniOrder>,
    hash: Seq<char>,
)
    ensures
        lists(still_open(open_orders, new_orders) + newly_open(open_orders, new_orders), hash)
            <==> has_hash(new_orders, hash),
{
    let kept = still_open(open_orders, new_orders);
    let new = newly_open(open_orders, new_orders);
    lemma_selected_hashes(open_orders, new_orders, true, hash);
    lemma_selected_hashes(new_orders, open_orders, false, hash);
    if lists(kept + new, hash) {
        let i = choose|i: int|
            0 <= i < (kept + new).len() && (#[trigger] (kept + new)[i]).order_hash == hash;
        if i < kept.len() {
            assert(kept[i] == (kept + new)[i]);
        } else {
            assert(new[i - kept.len()] == (kept + new)[i]);
        }
    }
    if lists(kept, hash) {
        let i = choose|i: int| 0 <= i < kept.len() && (#[trigger] kept[i]).order_hash == hash;
        assert((kept + new)[i] == kept[i]);
    }
    if lists(new, hash) {
        let i = choose|i: int| 0 <= i < new.len() && (#[trigger] new[i]).order_hash == hash;
        assert((kept + new)[kept.len() + i] == new[i]);
    }
}

/// No order is both newly open and held before: a hash that the open orders
/// hold is not among the new ones.
pub proof fn lemma_new_orders_were_not_held(
    open_orders: Seq<UniOrder>,
    new_orders: Seq<UniOrder>,
    hash: Seq<char>,
)
    requires
        has_hash(open_orders, hash),
    ensures
        !lists(newly_open(open_orders, new_orders), hash),
{
    lemma_selected_hashes(new_orders, open_orders, false, hash);
}

} // verus!
