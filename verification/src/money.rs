//! Monetary amounts, kept as integer euro cents.

use vstd::prelude::*;

verus! {

/// An amount of money in euro cents.
#[derive(Clone, Copy, Debug, PartialEq, Eq, Structural)]
pub struct Money {
    pub cents: i64,
}

impl Money {
    /// The zero amount.
    pub fn zero() -> (r: Money)
        ensures
            r.cents == 0,
    {
        Money { cents: 0 }
    }

    /// Builds an amount from a number of cents.
    pub fn from_cents(cents: i64) -> (r: Money)
        ensures
            r.cents == cents,
    {
        Money { cents }
    }

    /// Adds two amounts; `None` when the sum does not fit in `i64`.
    pub fn checked_add(self, other: Money) -> (r: Option<Money>)
        ensures
            i64::MIN <= self.cents + other.cents <= i64::MAX ==> r == Some(
                Money { cents: (self.cents + other.cents) as i64 },
            ),
            !(i64::MIN <= self.cents + other.cents <= i64::MAX) ==> r is None,
    {
        match self.cents.checked_add(other.cents) {
            Some(c) => Some(Money { cents: c }),
            None => None,
        }
    }
}

} // verus!
