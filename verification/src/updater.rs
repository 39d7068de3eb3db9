//! Keeping an order book in step with a venue's stream of updates.

use crate::error::DataError;
use crate::orderbook::{apply_levels, BookView, Level, OrderBook};
use crate::subscription::{Instrument, SubscriptionId};
use vstd::prelude::*;

verus! {

/// What merging one update came to.
pub enum Outcome {
    /// Nothing to show: the update was dropped.
    Quiet,
    /// The update was merged and the book is to be published.
    Emit,
    /// The update could not be merged.
    Fail(DataError),
}

/// An updater and its book after one update, with what the update came to.
pub struct Merged<Updater> {
    pub updater: Updater,
    pub book: BookView,
    pub outcome: Outcome,
}

/// An instrument's order book together with the updater that merges the venue's
/// updates into it.
#[derive(Debug)]
pub struct InstrumentOrderBook<Updater> {
    pub instrument: Instrument,
    pub updater: Updater,
    pub book: OrderBook,
}

/// The rules by which one venue's updates are merged into an order book.
pub trait OrderBookUpdater: Sized {
    /// One message of the venue's order book stream.
    type Update;

    /// A full book as the venue hands it out on request.
    type Snapshot;

    /// The routing key that an update carries, if it carries one.
    spec fn key_of(update: &Self::Update) -> Option<Seq<char>>;

    /// The updater and the book after `update`, and what the update came to.
    spec fn merged(&self, book: BookView, update: &Self::Update) -> Merged<Self>;

    /// The book and the updater that a snapshot starts, or why it starts none.
    spec fn started(snapshot: &Self::Snapshot) -> Result<(BookView, Self), DataError>;

    /// Reads the routing key of an update.
    fn id(update: &Self::Update) -> (r: Option<SubscriptionId>)
        ensures
            r is Some <==> Self::key_of(update) is Some,
            r matches Some(id) ==> Some(id@) == Self::key_of(update),
    ;

    /// Starts the order book of `instrument` from a snapshot.
    fn init(
        instrument: Instrument,
        snapshot: Self::Snapshot,
    ) -> (r: Result<InstrumentOrderBook<Self>, DataError>)
        ensures
            match Self::started(&snapshot) {
                Ok(start) => {
                    &&& r matches Ok(started)
                    &&& started.instrument == instrument
                    &&& started.book.wf()
                    &&& (started.book@, started.updater) == start
                },
                Err(error) => r matches Err(e) && e == error,
            },
    ;

    /// Merges `update` into `book`. Returns a copy of the book when the update
    /// changed it, nothing when the update was dropped, and the error when it
    /// could not be merged; the book is touched only in the first case.
    fn update(
        &mut self,
        book: &mut OrderBook,
        update: Self::Update,
    ) -> (r: Result<Option<OrderBook>, DataError>)
        requires
            old(book).wf(),
        ensures
            final(book).wf(),
            *final(self) == old(self).merged(old(book)@, &update).updater,
            final(book)@ == old(self).merged(old(book)@, &update).book,
            match old(self).merged(old(book)@, &update).outcome {
                Outcome::Quiet => {
                    &&& r == Ok::<Option<OrderBook>, DataError>(None)
                    &&& *final(book) == *old(book)
                },
                Outcome::Emit => r matches Ok(Some(copy)) && copy.wf() && copy@ == final(book)@,
                Outcome::Fail(error) => {
                    &&& r == Err::<Option<OrderBook>, DataError>(error)
                    &&& *final(book) == *old(book)
                },
            },
    ;
}

/// Where an order book stands against its venue's update stream.
#[derive(Clone, Copy, Debug, PartialEq, Eq, Structural)]
pub enum SyncState {
    /// The book cannot be trusted: an update was missed. Only a fresh snapshot
    /// helps.
    AwaitingSnapshot,
    /// A snapshot is in place and no update has been merged yet: updates from
    /// before the snapshot are still passing by.
    Buffering,
    /// Updates are merged as they come, each starting where the last one ended.
    Synced,
}

/// One message of an order book stream: the levels that changed over a range of
/// update sequence numbers. A level's quantity is the new total at its price.
#[derive(Debug)]
pub struct BookUpdate {
    pub subscription_id: Option<SubscriptionId>,
    pub first_update_id: u64,
    pub last_update_id: u64,
    pub bids: Vec<Level>,
    pub asks: Vec<Level>,
}

/// A full order book as of an update sequence number.
#[derive(Debug)]
pub struct BookSnapshot {
    pub last_update_id: u64,
    pub bids: Vec<Level>,
    pub asks: Vec<Level>,
}

/// Merges updates that carry the range of sequence numbers they cover.
///
/// An update that ends at or before the book's sequence number is dropped. The
/// first update after a snapshot must reach across the snapshot's successor;
/// each later one must start right after the one before. Anything else leaves a
/// gap: it is refused, and so is every update after it until a new snapshot.
#[derive(Clone, Copy, Debug, PartialEq, Eq, Structural)]
pub struct SequenceBookUpdater {
    pub state: SyncState,
}

/// Whether an update that ends after `sequence` connects to a book at `sequence`.
pub open spec fn connects(state: SyncState, sequence: u64, first_update_id: u64) -> bool {
    match state {
        SyncState::AwaitingSnapshot => false,
        SyncState::Buffering => first_update_id <= sequence + 1,
        SyncState::Synced => first_update_id == sequence + 1,
    }
}

impl SequenceBookUpdater {
    /// The updater for a book that holds a snapshot and nothing else yet.
    pub fn new() -> (r: Self)
        ensures
            r.state == SyncState::Buffering,
    {
        SequenceBookUpdater { state: SyncState::Buffering }
    }

    /// Replaces the book by a fresh snapshot and waits for the updates to reach
    /// it.
    pub fn resync(&mut self, book: &mut OrderBook, snapshot: &BookSnapshot)
        ensures
            final(book).wf(),
            Ok::<(BookView, Self), DataError>((final(book)@, *final(self))) == Self::started(
                snapshot,
            ),
    {
        *book = OrderBook::new(snapshot.last_update_id, &snapshot.bids, &snapshot.asks);
        self.state = SyncState::Buffering;
    }
}

impl SequenceBookUpdater {
    /// Merges a recorded run of updates, first to last, each as `update` merges
    /// it: an update that is dropped or refused leaves the book as it is.
    pub fn replay(&mut self, book: &mut OrderBook, updates: Vec<BookUpdate>)
        requires
            old(book).wf(),
        ensures
            final(book).wf(),
            (*final(self), final(book)@) == merged_run(*old(self), old(book)@, updates@),
    {
        let ghost all = updates@;
        let ghost first = (*self, book@);
        assert(all.take(0) =~= Seq::<BookUpdate>::empty());
        for update in it: updates
            invariant
                it.seq() == all,
                book.wf(),
                (*self, book@) == merged_run(first.0, first.1, all.take(it.index() as int)),
        {
            let ghost n = it.index() as int;
            assert(all.take(n + 1).drop_last() =~= all.take(n));
            assert(all.take(n + 1).last() == update);
            let _ = self.update(book, update);
        }
        assert(all.take(all.len() as int) =~= all);
    }
}

impl OrderBookUpdater for SequenceBookUpdater {
    type Update = BookUpdate;

    type Snapshot = BookSnapshot;

    open spec fn key_of(update: &BookUpdate) -> Option<Seq<char>> {
        match update.subscription_id {
            Some(id) => Some(id@),
            None => None,
        }
    }

    open spec fn merged(&self, book: BookView, update: &BookUpdate) -> Merged<Self> {
        if update.last_update_id <= book.sequence {
            Merged { updater: *self, book, outcome: Outcome::Quiet }
        } else if connects(self.state, book.sequence, update.first_update_id) {
            Merged {
                updater: SequenceBookUpdater { state: SyncState::Synced },
                book: BookView {
                    sequence: update.last_update_id,
                    bids: apply_levels(book.bids, update.bids@),
                    asks: apply_levels(book.asks, update.asks@),
                },
                outcome: Outcome::Emit,
            }
        } else {
            Merged {
                updater: SequenceBookUpdater { state: SyncState::AwaitingSnapshot },
                book,
                outcome: Outcome::Fail(
                    DataError::InvalidSequence {
                        prev_last_update_id: book.sequence,
                        first_update_id: update.first_update_id,
                    },
                ),
            }
        }
    }

    open spec fn started(snapshot: &BookSnapshot) -> Result<(BookView, Self), DataError> {
        Ok(
            (
                BookView {
                    sequence: snapshot.last_update_id,
                    bids: apply_levels(Map::empty(), snapshot.bids@),
                    asks: apply_levels(Map::empty(), snapshot.asks@),
                },
                SequenceBookUpdater { state: SyncState::Buffering },
            ),
        )
    }

    fn id(update: &BookUpdate) -> (r: Option<SubscriptionId>) {
        match &update.subscription_id {
            Some(id) => Some(id.duplicate()),
            None => None,
        }
    }

    fn init(
        instrument: Instrument,
        snapshot: BookSnapshot,
    ) -> (r: Result<InstrumentOrderBook<Self>, DataError>) {
        Ok(
            InstrumentOrderBook {
                instrument,
                updater: SequenceBookUpdater::new(),
                book: OrderBook::new(snapshot.last_update_id, &snapshot.bids, &snapshot.asks),
            },
        )
    }

    fn update(
        &mut self,
        book: &mut OrderBook,
        update: BookUpdate,
    ) -> (r: Result<Option<OrderBook>, DataError>) {
        let sequence = book.sequence();
        if update.last_update_id <= sequence {
            return Ok(None);
        }
        let connected = match self.state {
            SyncState::AwaitingSnapshot => false,
            SyncState::Buffering => update.first_update_id <= sequence + 1,
            SyncState::Synced => update.first_update_id == sequence + 1,
        };
        if connected {
            book.apply(update.last_update_id, &update.bids, &update.asks);
            self.state = SyncState::Synced;
            Ok(Some(book.snapshot()))
        } else {
            self.state = SyncState::AwaitingSnapshot;
            Err(
                DataError::InvalidSequence {
                    prev_last_update_id: sequence,
                    first_update_id: update.first_update_id,
                },
            )
        }
    }
}


/// The updater and the book after the updates of `updates`, taken first to last,
/// whatever each of them came to.
pub open spec fn merged_run(
    updater: SequenceBookUpdater,
    book: BookView,
    updates: Seq<BookUpdate>,
) -> (SequenceBookUpdater, BookView)
    decreases updates.len(),
{
    if updates.len() == 0 {
        (updater, book)
    } else {
        let before = merged_run(updater, book, updates.drop_last());
        let step = before.0.merged(before.1, &updates.last());
        (step.updater, step.book)
    }
}

/// Each update covers a range of its own and starts right after the one before
/// it, the first of them right after `sequence`.
pub open spec fn contiguous_from(sequence: u64, updates: Seq<BookUpdate>) -> bool {
    forall|i: int|
        0 <= i < updates.len() ==> {
            &&& (#[trigger] updates[i]).first_update_id <= updates[i].last_update_id
            &&& i == 0 ==> updates[i].first_update_id == sequence + 1
            &&& i > 0 ==> updates[i].first_update_id == updates[i - 1].last_update_id + 1
        }
}

/// The depth of one side after the levels of every update of a run.
pub open spec fn depth_after(
    depth: Map<u64, u64>,
    updates: Seq<BookUpdate>,
    bids: bool,
) -> Map<u64, u64>
    decreases updates.len(),
{
    if updates.len() == 0 {
        depth
    } else {
        apply_levels(
            depth_after(depth, updates.drop_last(), bids),
            if bids {
                updates.last().bids@
            } else {
                updates.last().asks@
            },
        )
    }
}

/// An update that ends at or before the book's sequence number changes nothing:
/// replaying what the book already holds does no harm.
pub proof fn lemma_stale_update_is_dropped(
    updater: SequenceBookUpdater,
    book: BookView,
    update: BookUpdate,
)
    requires
        update.last_update_id <= book.sequence,
    ensures
        updater.merged(book, &update).updater == updater,
        updater.merged(book, &update).book == book,
        updater.merged(book, &update).outcome == Outcome::Quiet,
{
}

/// An update that starts beyond the successor of the book's sequence number is
/// never merged: it is answered by the error that asks for a new snapshot, the
/// book stays as it was, and the updater waits for that snapshot.
pub proof fn lemma_gap_asks_for_snapshot(
    updater: SequenceBookUpdater,
    book: BookView,
    update: BookUpdate,
)
    requires
        update.first_update_id <= update.last_update_id,
        update.first_update_id > book.sequence + 1,
    ensures
        updater.merged(book, &update).updater.state == SyncState::AwaitingSnapshot,
        updater.merged(book, &update).book == book,
        updater.merged(book, &update).outcome == Outcome::Fail(
            DataError::InvalidSequence {
                prev_last_update_id: book.sequence,
                first_update_id: update.first_update_id,
            },
        ),
        updater.merged(book, &update).outcome matches Outcome::Fail(error) && error.terminal(),
{
}

/// While the updater waits for a snapshot, no update changes the book.
pub proof fn lemma_nothing_merged_without_snapshot(
    updater: SequenceBookUpdater,
    book: BookView,
    update: BookUpdate,
)
    requires
        updater.state == SyncState::AwaitingSnapshot,
    ensures
        updater.merged(book, &update).updater == updater,
        updater.merged(book, &update).book == book,
        !(updater.merged(book, &update).outcome is Emit),
{
}

/// The book's sequence number never falls.
pub proof fn lemma_sequence_never_falls(
    updater: SequenceBookUpdater,
    book: BookView,
    update: BookUpdate,
)
    ensures
        updater.merged(book, &update).book.sequence >= book.sequence,
{
}

/// Updates that follow one another without a gap are all merged: after them the
/// updater is in step, the book stands at the last update's end, and each side
/// holds what the levels of all the updates leave, taken in order.
pub proof fn lemma_contiguous_run_is_merged(
    updater: SequenceBookUpdater,
    book: BookView,
    updates: Seq<BookUpdate>,
)
    requires
        updater.state != SyncState::AwaitingSnapshot,
        updates.len() > 0,
        contiguous_from(book.sequence, updates),
    ensures
        merged_run(updater, book, updates).0.state == SyncState::Synced,
        merged_run(updater, book, updates).1 == (BookView {
            sequence: updates.last().last_update_id,
            bids: depth_after(book.bids, updates, true),
            asks: depth_after(book.asks, updates, false),
        }),
    decreases updates.len(),
{
    let head = updates.drop_last();
    let last = updates.last();
    assert(last == updates[updates.len() - 1]);
    if head.len() > 0 {
        assert(contiguous_from(book.sequence, head)) by {
            assert forall|i: int| 0 <= i < head.len() implies {
                &&& (#[trigger] head[i]).first_update_id <= head[i].last_update_id
                &&& i == 0 ==> head[i].first_update_id == book.sequence + 1
                &&& i > 0 ==> head[i].first_update_id == head[i - 1].last_update_id + 1
            } by {
                assert(head[i] == updates[i]);
                if i > 0 {
                    assert(head[i - 1] == updates[i - 1]);
                }
            }
        }
        lemma_contiguous_run_is_merged(updater, book, head);
        assert(head.last() == updates[updates.len() - 2]);
        let before = merged_run(updater, book, head);
        assert(before.1.sequence == head.last().last_update_id);
        assert(last.first_update_id == before.1.sequence + 1);
    } else {
        assert(merged_run(updater, book, head) == (updater, book));
        assert(depth_after(book.bids, head, true) == book.bids);
        assert(depth_after(book.asks, head, false) == book.asks);
        assert(last.first_update_id == book.sequence + 1);
    }
}

} // verus!
