//! What holds of the book across operations.

use crate::book::{apply_entries, apply_record, apply_records, evaluated, BookView};
use crate::ledger::{
    above, ascending, below, has_price, lemma_filter_run, lemma_split_at, priced_above,
    priced_below, well_formed, with_level, with_quantity, without_price,
};
use crate::level::{PriceLevel, EPSILON};
use crate::record::{
    classification_of, side_entries, Classification, Entry, MalformedRecord, OrderbookEntry,
    OrderbookMessage,
};
use vstd::prelude::*;

verus! {

/// In a ledger in order, no two levels share a price.
pub proof fn lemma_prices_unique(s: Seq<PriceLevel>)
    requires
        ascending(s),
    ensures
        forall|i: int, j: int| 0 <= i < s.len() && 0 <= j < s.len() && i != j ==> s[i].price != s[j].price,
{
    assert forall|i: int, j: int| 0 <= i < s.len() && 0 <= j < s.len() && i != j implies s[i].price
        != s[j].price by {
        if i < j {
            assert(s[i].price < s[j].price);
        } else {
            assert(s[j].price < s[i].price);
        }
    }
}

/// An ascending sequence splits at one position into the levels priced below
/// `price` and those priced at or above it.
pub proof fn lemma_split_exists(s: Seq<PriceLevel>, price: i64) -> (k: int)
    requires
        ascending(s),
    ensures
        0 <= k <= s.len(),
        forall|i: int| 0 <= i < k ==> s[i].price < price,
        forall|i: int| k <= i < s.len() ==> s[i].price >= price,
    decreases s.len(),
{
    if s.len() == 0 {
        0
    } else {
        let n = s.len() - 1;
        let front = s.drop_last();
        let k = lemma_split_exists(front, price);
        assert forall|i: int| 0 <= i < k implies s[i].price < price by {
            assert(front[i] == s[i]);
        }
        if k < n {
            assert forall|i: int| k <= i < s.len() implies s[i].price >= price by {
                assert(front[k].price >= price);
                if i > k {
                    assert(s[k].price < s[i].price);
                }
            }
            k
        } else if s[n].price < price {
            n + 1
        } else {
            n
        }
    }
}

/// Setting a quantity at a price keeps a ledger in order: prices stay
/// strictly ascending, hence unique, and no level falls below the tolerance.
pub proof fn lemma_with_quantity_well_formed(s: Seq<PriceLevel>, price: i64, quantity: i64)
    requires
        well_formed(s),
    ensures
        well_formed(with_quantity(s, price, quantity)),
{
    let k = lemma_split_exists(s, price);
    lemma_split_at(s, price, k);
    let n = s.len() as int;
    let after = if k < n && s[k].price == price { k + 1 } else { k };
    let low = s.subrange(0, k);
    let high = s.subrange(after, n);
    if quantity < EPSILON {
        let t = low + high;
        assert(t == with_quantity(s, price, quantity));
        assert forall|i: int, j: int| 0 <= i < j < t.len() implies t[i].price < t[j].price by {
            let si = if i < k { i } else { i - k + after };
            let sj = if j < k { j } else { j - k + after };
            assert(t[i] == s[si] && t[j] == s[sj]);
        }
        assert forall|i: int| 0 <= i < t.len() implies t[i].quantity >= EPSILON by {
            let si = if i < k { i } else { i - k + after };
            assert(t[i] == s[si]);
        }
    } else {
        let level = PriceLevel { price, quantity };
        let t = low + seq![level] + high;
        assert(t == with_quantity(s, price, quantity));
        assert forall|i: int| 0 <= i < t.len() implies (#[trigger] t[i]).quantity >= EPSILON && (i
            < k ==> t[i] == s[i]) && (i == k ==> t[i] == level) && (i > k ==> t[i] == s[i - k - 1
            + after]) by {}
        assert forall|i: int, j: int| 0 <= i < j < t.len() implies t[i].price < t[j].price by {
            if i < k && j > k {
                assert(s[i].price < price);
                assert(s[j - k - 1 + after].price > price);
            } else if i < k && j < k {
                assert(s[i].price < s[j].price);
            } else if i > k {
                assert(s[i - k - 1 + after].price < s[j - k - 1 + after].price);
            }
        }
    }
}

/// Applying any pairs, in any number, keeps a ledger in order.
pub proof fn lemma_apply_entries_well_formed(s: Seq<PriceLevel>, entries: Seq<Entry>)
    requires
        well_formed(s),
    ensures
        well_formed(apply_entries(s, entries)),
    decreases entries.len(),
{
    if entries.len() > 0 {
        lemma_apply_entries_well_formed(s, entries.drop_last());
        lemma_with_quantity_well_formed(
            apply_entries(s, entries.drop_last()),
            entries.last().price,
            entries.last().qty,
        );
    }
}

/// After any sequence of records, each side of the book is in order: it
/// holds at most one level for each price.
pub proof fn lemma_apply_records_well_formed(book: BookView, records: Seq<OrderbookEntry>)
    requires
        well_formed(book.bids),
        well_formed(book.asks),
    ensures
        well_formed(apply_records(book, records).bids),
        well_formed(apply_records(book, records).asks),
    decreases records.len(),
{
    if records.len() > 0 {
        lemma_apply_records_well_formed(book, records.drop_last());
        let before = apply_records(book, records.drop_last());
        lemma_apply_entries_well_formed(before.bids, side_entries(records.last().bids));
        lemma_apply_entries_well_formed(before.asks, side_entries(records.last().asks));
    }
}

/// The levels below a price, filtered again by the same price, are
/// themselves; those above it hold none below it, and the other way round.
proof fn lemma_filter_again(s: Seq<PriceLevel>, price: i64)
    ensures
        below(below(s, price), price) == below(s, price),
        above(above(s, price), price) == above(s, price),
        below(above(s, price), price) == Seq::<PriceLevel>::empty(),
        above(below(s, price), price) == Seq::<PriceLevel>::empty(),
{
    let lo = below(s, price);
    let hi = above(s, price);
    assert forall|i: int| 0 <= i < lo.len() implies lo[i].price < price by {
        s.lemma_filter_pred(priced_below(price), i);
    }
    assert forall|i: int| 0 <= i < hi.len() implies hi[i].price > price by {
        s.lemma_filter_pred(priced_above(price), i);
    }
    lemma_filter_run(lo, priced_below(price), 0, lo.len() as int);
    lemma_filter_run(hi, priced_above(price), 0, hi.len() as int);
    lemma_filter_run(hi, priced_below(price), 0, 0);
    lemma_filter_run(lo, priced_above(price), 0, 0);
    assert(lo.subrange(0, lo.len() as int) =~= lo);
    assert(hi.subrange(0, hi.len() as int) =~= hi);
    assert(hi.subrange(0, 0) =~= Seq::<PriceLevel>::empty());
    assert(lo.subrange(0, 0) =~= Seq::<PriceLevel>::empty());
}

/// Setting the same quantity at the same price twice in a row leaves the
/// ledger as setting it once does, whether the pair sets a level or removes
/// one.
pub proof fn lemma_set_twice(s: Seq<PriceLevel>, price: i64, quantity: i64)
    ensures
        with_quantity(with_quantity(s, price, quantity), price, quantity) == with_quantity(
            s,
            price,
            quantity,
        ),
{
    let lo = below(s, price);
    let hi = above(s, price);
    let nothing = Seq::<PriceLevel>::empty();
    lemma_filter_again(s, price);
    if quantity < EPSILON {
        Seq::filter_distributes_over_add(lo, hi, priced_below(price));
        Seq::filter_distributes_over_add(lo, hi, priced_above(price));
        assert(lo + nothing =~= lo);
        assert(nothing + hi =~= hi);
    } else {
        let level = PriceLevel { price, quantity };
        let one = seq![level];
        lemma_filter_run(one, priced_below(price), 0, 0);
        lemma_filter_run(one, priced_above(price), 0, 0);
        assert(one.subrange(0, 0) =~= nothing);
        Seq::filter_distributes_over_add(lo, one, priced_below(price));
        Seq::filter_distributes_over_add(lo + one, hi, priced_below(price));
        Seq::filter_distributes_over_add(lo, one, priced_above(price));
        Seq::filter_distributes_over_add(lo + one, hi, priced_above(price));
        assert(lo + nothing + nothing =~= lo);
        assert(nothing + nothing + hi =~= hi);
    }
}

/// Once a price is removed, no level stands at it.
pub proof fn lemma_removed_price_is_gone(s: Seq<PriceLevel>, price: i64)
    ensures
        !has_price(without_price(s, price), price),
{
    let lo = below(s, price);
    let hi = above(s, price);
    let t = without_price(s, price);
    assert forall|i: int| 0 <= i < t.len() implies t[i].price != price by {
        if i < lo.len() {
            s.lemma_filter_pred(priced_below(price), i);
        } else {
            s.lemma_filter_pred(priced_above(price), i - lo.len());
        }
    }
}

/// Once a level is set, it is the one level at its price: the quantity held
/// there before is replaced, not added to.
pub proof fn lemma_set_level_is_found(s: Seq<PriceLevel>, level: PriceLevel)
    ensures
        with_level(s, level).contains(level),
        forall|i: int|
            0 <= i < with_level(s, level).len() && with_level(s, level)[i].price == level.price
                ==> with_level(s, level)[i] == level,
{
    let lo = below(s, level.price);
    let hi = above(s, level.price);
    let t = with_level(s, level);
    assert(t[lo.len() as int] == level);
    assert forall|i: int| 0 <= i < t.len() && t[i].price == level.price implies t[i] == level by {
        if i < lo.len() {
            s.lemma_filter_pred(priced_below(level.price), i);
        } else if i > lo.len() {
            s.lemma_filter_pred(priced_above(level.price), i - lo.len() - 1);
        }
    }
}

/// A snapshot replaces, it does not merge: what the book holds afterwards
/// does not depend on what it held before.
pub proof fn lemma_snapshot_forgets(first: BookView, second: BookView, message: OrderbookMessage)
    requires
        classification_of(message.kind) == Classification::Snapshot,
    ensures
        evaluated(first, message) == evaluated(second, message),
{
}

/// A record that is neither a snapshot nor an update leaves the book exactly
/// as it was.
pub proof fn lemma_other_records_change_nothing(book: BookView, message: OrderbookMessage)
    requires
        classification_of(message.kind) == Classification::Other,
    ensures
        evaluated(book, message) == Ok::<BookView, MalformedRecord>(book),
{
}

/// A record with neither side populated changes nothing.
pub proof fn lemma_empty_record_changes_nothing(book: BookView, record: OrderbookEntry)
    requires
        record.bids is None,
        record.asks is None,
    ensures
        apply_record(book, record) == book,
{
}

} // verus!
