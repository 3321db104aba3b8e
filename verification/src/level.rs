//! Price levels and the order between them.

use std::cmp::Ordering;
use vstd::prelude::*;

verus! {

/// Number of fixed-point units in one whole unit of price or quantity.
pub const SCALE: i64 = 1_000_000_000;

/// Tolerance below which a quantity counts as no liquidity remaining.
///
/// Expressed in fixed-point units: ten billionths, that is one hundred
/// millionth of a whole unit.
pub const EPSILON: i64 = 10;

/// The total resting quantity available at one price on one side of the book.
///
/// Both fields are fixed-point integers counting [`SCALE`]-ths of a whole unit.
#[derive(Clone, Copy, Debug, PartialEq, Eq, Structural)]
pub struct PriceLevel {
    pub price: i64,
    pub quantity: i64,
}

impl PriceLevel {
    /// Whether this level sorts strictly before `other`. Only prices count.
    pub open spec fn precedes(self, other: PriceLevel) -> bool {
        self.price < other.price
    }

    /// Whether a level with this quantity is kept in a ledger.
    pub open spec fn is_live(self) -> bool {
        self.quantity >= EPSILON
    }

    /// Compares two levels by price alone; quantities never take part.
    pub fn price_order(&self, other: &PriceLevel) -> (o: Ordering)
        ensures
            match o {
                Ordering::Less => self.price < other.price,
                Ordering::Equal => self.price == other.price,
                Ordering::Greater => self.price > other.price,
            },
    {
        if self.price < other.price {
            Ordering::Less
        } else if self.price == other.price {
            Ordering::Equal
        } else {
            Ordering::Greater
        }
    }
}

} // verus!
