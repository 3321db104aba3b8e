//! The book: a bid ledger and an ask ledger for one instrument, rebuilt from
//! snapshots and kept current by updates.

use crate::ledger::{well_formed, with_quantity, SideLedger};
use crate::level::PriceLevel;
use crate::record::{
    classification_of, classify, is_book_channel, routed_to_book, side_entries, Classification,
    Entry, MalformedRecord, OrderbookEntry, OrderbookMessage,
};
use vstd::prelude::*;

verus! {

/// The state of a book: the levels of each side, lowest price first.
pub struct BookView {
    pub bids: Seq<PriceLevel>,
    pub asks: Seq<PriceLevel>,
}

/// The book with no level on either side.
pub open spec fn empty_book() -> BookView {
    BookView { bids: Seq::empty(), asks: Seq::empty() }
}

/// The levels `s` after the pairs of `entries`, taken in order.
pub open spec fn apply_entries(s: Seq<PriceLevel>, entries: Seq<Entry>) -> Seq<PriceLevel>
    decreases entries.len(),
{
    if entries.len() == 0 {
        s
    } else {
        let before = apply_entries(s, entries.drop_last());
        with_quantity(before, entries.last().price, entries.last().qty)
    }
}

/// The book after the changes that `record` carries for each side.
pub open spec fn apply_record(book: BookView, record: OrderbookEntry) -> BookView {
    BookView {
        bids: apply_entries(book.bids, side_entries(record.bids)),
        asks: apply_entries(book.asks, side_entries(record.asks)),
    }
}

/// The book after `records`, taken in order.
pub open spec fn apply_records(book: BookView, records: Seq<OrderbookEntry>) -> BookView
    decreases records.len(),
{
    if records.len() == 0 {
        book
    } else {
        apply_record(apply_records(book, records.drop_last()), records.last())
    }
}

/// The book after an update: the data applied to what the book holds. An
/// update without data is malformed.
pub open spec fn updated(book: BookView, message: OrderbookMessage) -> Result<
    BookView,
    MalformedRecord,
> {
    match message.data {
        Some(records) => Ok(apply_records(book, records@)),
        None => Err(MalformedRecord),
    }
}

/// The book after a snapshot: the data applied to an empty book, whatever
/// the book held. A snapshot without data is malformed.
pub open spec fn replaced(message: OrderbookMessage) -> Result<BookView, MalformedRecord> {
    updated(empty_book(), message)
}

/// The book after a record, by its classification. A record that is neither
/// a snapshot nor an update changes nothing.
pub open spec fn evaluated(book: BookView, message: OrderbookMessage) -> Result<
    BookView,
    MalformedRecord,
> {
    match classification_of(message.kind) {
        Classification::Snapshot => replaced(message),
        Classification::Update => updated(book, message),
        Classification::Other => Ok(book),
    }
}

/// The best bid of a book: the bid level with the highest price.
pub open spec fn best_bid_of(book: BookView) -> Option<PriceLevel> {
    if book.bids.len() == 0 {
        None
    } else {
        Some(book.bids.last())
    }
}

/// The best ask of a book: the ask level with the lowest price.
pub open spec fn best_ask_of(book: BookView) -> Option<PriceLevel> {
    if book.asks.len() == 0 {
        None
    } else {
        Some(book.asks.first())
    }
}

/// Whether `outcome` and the state `after` are what `expected` asks for: on
/// success the new state, on failure the error and the state `before`.
pub open spec fn settles<T>(
    expected: Result<BookView, MalformedRecord>,
    before: BookView,
    after: BookView,
    outcome: Result<T, MalformedRecord>,
) -> bool {
    match expected {
        Ok(book) => outcome is Ok && after == book,
        Err(error) => outcome is Err && outcome->Err_0 == error && after == before,
    }
}

/// Applies the pairs of one side of a record to a ledger, in order.
fn apply_side(ledger: &mut SideLedger, side: &Option<Vec<Entry>>)
    requires
        old(ledger).wf(),
    ensures
        final(ledger).wf(),
        final(ledger)@ == apply_entries(old(ledger)@, side_entries(*side)),
{
    match side {
        Some(entries) => {
            let mut i: usize = 0;
            while i < entries.len()
                invariant
                    i <= entries@.len(),
                    ledger.wf(),
                    ledger@ == apply_entries(old(ledger)@, entries@.subrange(0, i as int)),
                decreases entries@.len() - i,
            {
                let entry = entries[i];
                ledger.set(entry.price, entry.qty);
                proof {
                    let done = entries@.subrange(0, i + 1);
                    assert(done.drop_last() =~= entries@.subrange(0, i as int));
                    assert(done.last() == entry);
                }
                i = i + 1;
            }
            assert(entries@.subrange(0, i as int) =~= entries@);
        },
        None => {},
    }
}

/// An order book for one instrument.
pub struct Orderbook {
    bids: SideLedger,
    asks: SideLedger,
}

impl View for Orderbook {
    type V = BookView;

    closed spec fn view(&self) -> BookView {
        BookView { bids: self.bids@, asks: self.asks@ }
    }
}

impl Orderbook {
    /// Whether both sides are in order. Every operation keeps it so.
    pub open spec fn wf(&self) -> bool {
        well_formed(self@.bids) && well_formed(self@.asks)
    }

    /// A book with no level on either side.
    pub fn new() -> (book: Orderbook)
        ensures
            book.wf(),
            book@ == empty_book(),
    {
        Orderbook { bids: SideLedger::new(), asks: SideLedger::new() }
    }

    /// Applies the records of `records` in order, each side of each record.
    fn apply_all(&mut self, records: &Vec<OrderbookEntry>)
        requires
            old(self).wf(),
        ensures
            final(self).wf(),
            final(self)@ == apply_records(old(self)@, records@),
    {
        let mut i: usize = 0;
        while i < records.len()
            invariant
                i <= records@.len(),
                self.wf(),
                self@ == apply_records(old(self)@, records@.subrange(0, i as int)),
            decreases records@.len() - i,
        {
            apply_side(&mut self.bids, &records[i].bids);
            apply_side(&mut self.asks, &records[i].asks);
            proof {
                let done = records@.subrange(0, i + 1);
                assert(done.drop_last() =~= records@.subrange(0, i as int));
                assert(done.last() == records@[i as int]);
            }
            i = i + 1;
        }
        assert(records@.subrange(0, i as int) =~= records@);
    }

    /// Applies an update: each pair of each side sets or removes one level.
    ///
    /// A message without data is refused and the book stays as it was.
    pub fn handle_update(&mut self, message: OrderbookMessage) -> (outcome: Result<
        (),
        MalformedRecord,
    >)
        requires
            old(self).wf(),
        ensures
            final(self).wf(),
            settles(updated(old(self)@, message), old(self)@, final(self)@, outcome),
    {
        match message.data {
            Some(records) => {
                self.apply_all(&records);
                Ok(())
            },
            None => Err(MalformedRecord),
        }
    }

    /// Applies a snapshot: both sides are emptied, then the data is applied
    /// as an update. Levels that the data does not name are gone.
    ///
    /// A message without data is refused and the book stays as it was.
    pub fn handle_snapshot(&mut self, message: OrderbookMessage) -> (outcome: Result<
        (),
        MalformedRecord,
    >)
        requires
            old(self).wf(),
        ensures
            final(self).wf(),
            settles(replaced(message), old(self)@, final(self)@, outcome),
    {
        if message.data.is_none() {
            return Err(MalformedRecord);
        }
        self.bids.clear();
        self.asks.clear();
        self.handle_update(message)
    }

    /// Applies a record according to its classification. A record that is
    /// neither a snapshot nor an update leaves the book unchanged.
    pub fn evaluate(&mut self, message: OrderbookMessage) -> (outcome: Result<(), MalformedRecord>)
        requires
            old(self).wf(),
        ensures
            final(self).wf(),
            settles(evaluated(old(self)@, message), old(self)@, final(self)@, outcome),
    {
        match classify(&message.kind) {
            Classification::Snapshot => self.handle_snapshot(message),
            Classification::Update => self.handle_update(message),
            Classification::Other => Ok(()),
        }
    }

    /// Takes one decoded record of the feed. A record of the book's channel
    /// is evaluated and answered with `true`: the top of the book may have
    /// moved. Any other record is ignored and answered with `false`.
    pub fn ingest(&mut self, message: OrderbookMessage) -> (outcome: Result<bool, MalformedRecord>)
        requires
            old(self).wf(),
        ensures
            final(self).wf(),
            is_book_channel(message.channel) ==> settles(
                evaluated(old(self)@, message),
                old(self)@,
                final(self)@,
                outcome,
            ) && (outcome is Ok ==> outcome == Ok::<bool, MalformedRecord>(true)),
            !is_book_channel(message.channel) ==> final(self)@ == old(self)@ && outcome == Ok::<
                bool,
                MalformedRecord,
            >(false),
    {
        if routed_to_book(&message.channel) {
            match self.evaluate(message) {
                Ok(()) => Ok(true),
                Err(error) => Err(error),
            }
        } else {
            Ok(false)
        }
    }

    /// The best bid: the bid level with the highest price, or `None` while
    /// there is no bid. The ask side plays no part.
    pub fn best_bid(&self) -> (best: Option<PriceLevel>)
        requires
            self.wf(),
        ensures
            best == best_bid_of(self@),
            best is Some ==> forall|i: int|
                0 <= i < self@.bids.len() ==> self@.bids[i].price <= best->0.price,
    {
        self.bids.highest()
    }

    /// The best ask: the ask level with the lowest price, or `None` while
    /// there is no ask. The bid side plays no part.
    pub fn best_ask(&self) -> (best: Option<PriceLevel>)
        requires
            self.wf(),
        ensures
            best == best_ask_of(self@),
            best is Some ==> forall|i: int|
                0 <= i < self@.asks.len() ==> best->0.price <= self@.asks[i].price,
    {
        self.asks.lowest()
    }

    /// The best bid and the best ask together, or `None` while either side
    /// is empty.
    pub fn top_of_book(&self) -> (top: Option<(PriceLevel, PriceLevel)>)
        requires
            self.wf(),
        ensures
            match top {
                Some((bid, ask)) => best_bid_of(self@) == Some(bid) && best_ask_of(self@) == Some(
                    ask,
                ),
                None => self@.bids.len() == 0 || self@.asks.len() == 0,
            },
    {
        match (self.bids.highest(), self.asks.lowest()) {
            (Some(bid), Some(ask)) => Some((bid, ask)),
            _ => None,
        }
    }

    /// A copy of the bid levels, lowest price first.
    pub fn bids(&self) -> (out: Vec<PriceLevel>)
        ensures
            out@ == self@.bids,
    {
        self.bids.levels()
    }

    /// A copy of the ask levels, lowest price first.
    pub fn asks(&self) -> (out: Vec<PriceLevel>)
        ensures
            out@ == self@.asks,
    {
        self.asks.levels()
    }
}

} // verus!
