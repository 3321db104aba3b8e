//! One side of the book: its price levels, kept in ascending order of price.

use crate::level::{PriceLevel, EPSILON};
use std::cmp::Ordering;
use vstd::prelude::*;

verus! {

/// Prices rise strictly from one level to the next, so no price occurs twice.
pub open spec fn ascending(s: Seq<PriceLevel>) -> bool {
    forall|i: int, j: int| 0 <= i < j < s.len() ==> s[i].price < s[j].price
}

/// Every level carries at least the tolerance in quantity.
pub open spec fn all_live(s: Seq<PriceLevel>) -> bool {
    forall|i: int| 0 <= i < s.len() ==> s[i].quantity >= EPSILON
}

/// What holds of the levels of a ledger at all times.
pub open spec fn well_formed(s: Seq<PriceLevel>) -> bool {
    ascending(s) && all_live(s)
}

/// Whether some level of `s` stands at `price`.
pub open spec fn has_price(s: Seq<PriceLevel>, price: i64) -> bool {
    exists|i: int| 0 <= i < s.len() && s[i].price == price
}

/// The test that a level is priced strictly below `price`.
pub open spec fn priced_below(price: i64) -> spec_fn(PriceLevel) -> bool {
    |l: PriceLevel| l.price < price
}

/// The test that a level is priced strictly above `price`.
pub open spec fn priced_above(price: i64) -> spec_fn(PriceLevel) -> bool {
    |l: PriceLevel| l.price > price
}

/// The levels of `s` priced strictly below `price`, in their order.
pub open spec fn below(s: Seq<PriceLevel>, price: i64) -> Seq<PriceLevel> {
    s.filter(priced_below(price))
}

/// The levels of `s` priced strictly above `price`, in their order.
pub open spec fn above(s: Seq<PriceLevel>, price: i64) -> Seq<PriceLevel> {
    s.filter(priced_above(price))
}

/// `s` with whatever stood at `price` taken out; every other level stays.
pub open spec fn without_price(s: Seq<PriceLevel>, price: i64) -> Seq<PriceLevel> {
    below(s, price) + above(s, price)
}

/// `s` with `level` as the one level at its price: an existing level there is
/// replaced, never added to.
pub open spec fn with_level(s: Seq<PriceLevel>, level: PriceLevel) -> Seq<PriceLevel> {
    below(s, level.price) + seq![level] + above(s, level.price)
}

/// `s` after learning that `quantity` now rests at `price`: below the
/// tolerance the price leaves the ledger, otherwise it is set.
pub open spec fn with_quantity(s: Seq<PriceLevel>, price: i64, quantity: i64) -> Seq<PriceLevel> {
    if quantity < EPSILON {
        without_price(s, price)
    } else {
        with_level(s, PriceLevel { price, quantity })
    }
}

/// A filter keeps exactly a run of positions when the predicate holds on
/// that run and nowhere else.
pub proof fn lemma_filter_run(s: Seq<PriceLevel>, pred: spec_fn(PriceLevel) -> bool, a: int, b: int)
    requires
        0 <= a <= b <= s.len(),
        forall|i: int| 0 <= i < s.len() ==> (pred(s[i]) <==> a <= i < b),
    ensures
        s.filter(pred) == s.subrange(a, b),
    decreases s.len(),
{
    reveal(Seq::filter);
    if s.len() == 0 {
        assert(s.filter(pred) =~= s.subrange(a, b));
    } else {
        let n = s.len() - 1;
        let front = s.drop_last();
        if pred(s[n]) {
            lemma_filter_run(front, pred, a, n);
            assert(front.subrange(a, n).push(s[n]) =~= s.subrange(a, b));
        } else {
            let a1 = if a < n { a } else { n };
            let b1 = if b < n { b } else { n };
            lemma_filter_run(front, pred, a1, b1);
            assert(front.subrange(a1, b1) =~= s.subrange(a, b));
        }
    }
}

/// In an ascending sequence split at `k`, the levels below `price` are the
/// first `k` and the levels above it are those after the level at `price`,
/// if there is one.
pub proof fn lemma_split_at(s: Seq<PriceLevel>, price: i64, k: int)
    requires
        ascending(s),
        0 <= k <= s.len(),
        forall|i: int| 0 <= i < k ==> s[i].price < price,
        forall|i: int| k <= i < s.len() ==> s[i].price >= price,
    ensures
        below(s, price) == s.subrange(0, k),
        k < s.len() && s[k].price == price ==> above(s, price) == s.subrange(k + 1, s.len() as int),
        !(k < s.len() && s[k].price == price) ==> above(s, price) == s.subrange(k, s.len() as int),
        has_price(s, price) <==> k < s.len() && s[k].price == price,
{
    lemma_filter_run(s, priced_below(price), 0, k);
    if k < s.len() && s[k].price == price {
        assert forall|i: int| 0 <= i < s.len() implies (priced_above(price)(s[i]) <==> k + 1 <= i
            < s.len()) by {
            if i > k {
                assert(s[k].price < s[i].price);
            }
        }
        lemma_filter_run(s, priced_above(price), k + 1, s.len() as int);
    } else {
        lemma_filter_run(s, priced_above(price), k, s.len() as int);
    }
}

/// One side of the book.
///
/// The levels are unique by price and held in ascending order of price; none
/// has a quantity below the tolerance.
pub struct SideLedger {
    levels: Vec<PriceLevel>,
}

impl View for SideLedger {
    type V = Seq<PriceLevel>;

    /// The levels, lowest price first.
    closed spec fn view(&self) -> Seq<PriceLevel> {
        self.levels@
    }
}

impl SideLedger {
    /// Whether the ledger is in order: prices strictly ascending, no level
    /// below the tolerance. Every operation keeps it so.
    pub open spec fn wf(&self) -> bool {
        well_formed(self@)
    }

    /// An empty ledger.
    pub fn new() -> (ledger: SideLedger)
        ensures
            ledger.wf(),
            ledger@ == Seq::<PriceLevel>::empty(),
    {
        SideLedger { levels: Vec::new() }
    }

    /// The number of levels.
    pub fn len(&self) -> (n: usize)
        ensures
            n == self@.len(),
    {
        self.levels.len()
    }

    /// Whether the ledger holds no level.
    pub fn is_empty(&self) -> (empty: bool)
        ensures
            empty == (self@.len() == 0),
    {
        self.levels.len() == 0
    }

    /// A copy of the levels, lowest price first.
    pub fn levels(&self) -> (out: Vec<PriceLevel>)
        ensures
            out@ == self@,
    {
        let mut out: Vec<PriceLevel> = Vec::new();
        let mut i: usize = 0;
        while i < self.levels.len()
            invariant
                i <= self.levels@.len(),
                out@ == self.levels@.subrange(0, i as int),
            decreases self.levels@.len() - i,
        {
            out.push(self.levels[i]);
            i = i + 1;
            assert(out@ =~= self.levels@.subrange(0, i as int));
        }
        assert(out@ =~= self.levels@);
        out
    }

    /// Drops every level.
    pub fn clear(&mut self)
        ensures
            final(self).wf(),
            final(self)@ == Seq::<PriceLevel>::empty(),
    {
        self.levels.clear();
    }

    /// The first position whose level is priced at or above `price`.
    fn position(&self, price: i64) -> (k: usize)
        requires
            self.wf(),
        ensures
            k <= self@.len(),
            forall|i: int| 0 <= i < k ==> self@[i].price < price,
            forall|i: int| k <= i < self@.len() ==> self@[i].price >= price,
    {
        let probe = PriceLevel { price, quantity: 0 };
        let mut lo: usize = 0;
        let mut hi: usize = self.levels.len();
        while lo < hi
            invariant
                lo <= hi <= self.levels@.len(),
                ascending(self.levels@),
                probe.price == price,
                forall|i: int| 0 <= i < lo ==> self.levels@[i].price < price,
                forall|i: int| hi <= i < self.levels@.len() ==> self.levels@[i].price >= price,
            decreases hi - lo,
        {
            let mid: usize = lo + (hi - lo) / 2;
            match self.levels[mid].price_order(&probe) {
                Ordering::Less => {
                    lo = mid + 1;
                },
                _ => {
                    hi = mid;
                },
            }
        }
        lo
    }
}

impl SideLedger {
    /// The quantity resting at `price`, if a level stands there.
    pub fn quantity_at(&self, price: i64) -> (found: Option<i64>)
        requires
            self.wf(),
        ensures
            found is Some <==> has_price(self@, price),
            found is Some ==> self@.contains(PriceLevel { price, quantity: found->0 }),
    {
        let k = self.position(price);
        proof {
            lemma_split_at(self@, price, k as int);
        }
        if k < self.levels.len() && self.levels[k].price == price {
            Some(self.levels[k].quantity)
        } else {
            None
        }
    }

    /// Takes out the level at `price`, if there is one. No other level is
    /// touched, whatever its price.
    pub fn remove(&mut self, price: i64)
        requires
            old(self).wf(),
        ensures
            final(self).wf(),
            final(self)@ == without_price(old(self)@, price),
    {
        let k = self.position(price);
        proof {
            lemma_split_at(self@, price, k as int);
        }
        if k < self.levels.len() && self.levels[k].price == price {
            self.levels.remove(k);
            assert(self@ =~= old(self)@.subrange(0, k as int) + old(self)@.subrange(
                k + 1,
                old(self)@.len() as int,
            ));
        } else {
            assert(self@ =~= self@.subrange(0, k as int) + self@.subrange(
                k as int,
                self@.len() as int,
            ));
        }
    }

    /// Makes `level` the one level at its price: replaces the level that
    /// stands there, or inserts `level` in its place in the order.
    fn upsert(&mut self, level: PriceLevel)
        requires
            old(self).wf(),
            level.quantity >= EPSILON,
        ensures
            final(self).wf(),
            final(self)@ == with_level(old(self)@, level),
    {
        let k = self.position(level.price);
        proof {
            lemma_split_at(self@, level.price, k as int);
        }
        if k < self.levels.len() && self.levels[k].price == level.price {
            self.levels.set(k, level);
            assert(self@ =~= old(self)@.subrange(0, k as int) + seq![level] + old(self)@.subrange(
                k + 1,
                old(self)@.len() as int,
            ));
        } else {
            self.levels.insert(k, level);
            assert(self@ =~= old(self)@.subrange(0, k as int) + seq![level] + old(self)@.subrange(
                k as int,
                old(self)@.len() as int,
            ));
        }
    }

    /// Records that `quantity` is now the total resting at `price`.
    ///
    /// A quantity below the tolerance removes the level at exactly that
    /// price. Any other quantity replaces the one held there, or opens a new
    /// level; quantities are never summed.
    pub fn set(&mut self, price: i64, quantity: i64)
        requires
            old(self).wf(),
        ensures
            final(self).wf(),
            final(self)@ == with_quantity(old(self)@, price, quantity),
    {
        if quantity < EPSILON {
            self.remove(price);
        } else {
            self.upsert(PriceLevel { price, quantity });
        }
    }

    /// The level with the lowest price, or `None` on an empty ledger.
    pub fn lowest(&self) -> (best: Option<PriceLevel>)
        requires
            self.wf(),
        ensures
            best is None <==> self@.len() == 0,
            best is Some ==> best->0 == self@.first(),
            best is Some ==> forall|i: int| 0 <= i < self@.len() ==> best->0.price <= self@[i].price,
    {
        if self.levels.len() == 0 {
            None
        } else {
            Some(self.levels[0])
        }
    }

    /// The level with the highest price, or `None` on an empty ledger.
    pub fn highest(&self) -> (best: Option<PriceLevel>)
        requires
            self.wf(),
        ensures
            best is None <==> self@.len() == 0,
            best is Some ==> best->0 == self@.last(),
            best is Some ==> forall|i: int| 0 <= i < self@.len() ==> self@[i].price <= best->0.price,
    {
        let n = self.levels.len();
        if n == 0 {
            None
        } else {
            Some(self.levels[n - 1])
        }
    }
}

} // verus!
