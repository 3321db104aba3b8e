//! Decoded feed records, as the book receives them.

use vstd::prelude::*;

verus! {

/// One `(price, quantity)` pair of a record: `qty` is now the total resting
/// at `price`. Both are fixed-point integers, as in a price level.
#[derive(Clone, Copy, Debug, PartialEq, Eq, Structural)]
pub struct Entry {
    pub price: i64,
    pub qty: i64,
}

/// The changes that a record carries for one symbol. A side that is absent
/// carries no change for that side.
#[derive(Clone, Debug)]
pub struct OrderbookEntry {
    pub symbol: Option<String>,
    pub bids: Option<Vec<Entry>>,
    pub asks: Option<Vec<Entry>>,
}

/// A decoded record of the feed.
#[derive(Clone, Debug)]
pub struct OrderbookMessage {
    pub data: Option<Vec<OrderbookEntry>>,
    pub kind: Option<String>,
    pub channel: Option<String>,
}

/// What a record asks of the book.
#[derive(Clone, Copy, Debug, PartialEq, Eq, Structural)]
pub enum Classification {
    /// A full replacement of both sides.
    Snapshot,
    /// Changes to the levels named.
    Update,
    /// Anything else: nothing to do.
    Other,
}

/// A record that declares a snapshot or an update and carries no data.
#[derive(Clone, Copy, Debug, PartialEq, Eq, Structural)]
pub struct MalformedRecord;

/// The classification that a record's declared type stands for.
pub open spec fn classification_of(kind: Option<String>) -> Classification {
    match kind {
        Some(name) => if name@ == "snapshot"@ {
            Classification::Snapshot
        } else if name@ == "update"@ {
            Classification::Update
        } else {
            Classification::Other
        },
        None => Classification::Other,
    }
}

/// Whether a record's channel is the one that feeds the book.
pub open spec fn is_book_channel(channel: Option<String>) -> bool {
    match channel {
        Some(name) => name@ == "book"@,
        None => false,
    }
}

/// The changes of one side of a record, none where the side is absent.
pub open spec fn side_entries(side: Option<Vec<Entry>>) -> Seq<Entry> {
    match side {
        Some(entries) => entries@,
        None => Seq::empty(),
    }
}

/// Reads a record's type once, so that dispatch is a closed match.
pub fn classify(kind: &Option<String>) -> (class: Classification)
    ensures
        class == classification_of(*kind),
{
    match kind {
        Some(name) => {
            if *name == "snapshot".to_owned() {
                Classification::Snapshot
            } else if *name == "update".to_owned() {
                Classification::Update
            } else {
                Classification::Other
            }
        },
        None => Classification::Other,
    }
}

/// Tells whether a record travels on the book's channel.
pub fn routed_to_book(channel: &Option<String>) -> (routed: bool)
    ensures
        routed == is_book_channel(*channel),
{
    match channel {
        Some(name) => *name == "book".to_owned(),
        None => false,
    }
}

} // verus!
