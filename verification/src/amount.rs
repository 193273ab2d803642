//! Fixed-point money: a signed value with exactly four decimal places,
//! stored as the integer count of ten-thousandths of a unit.

use vstd::prelude::*;

verus! {

/// A monetary amount scaled by ten thousand.  `units == 15000` stands for
/// `1.5000`.  Equality and order are exact on the scaled integer.
#[derive(Clone, Copy, Debug, PartialEq, Eq, Structural, Hash)]
pub struct FixedPointAmount {
    pub units: i64,
}

impl View for FixedPointAmount {
    type V = int;

    open spec fn view(&self) -> int {
        self.units as int
    }
}

/// True when a mathematical value fits the underlying scaled-integer range.
pub open spec fn fits_units(v: int) -> bool {
    i64::MIN <= v <= i64::MAX
}

/// The amount whose scaled representation is `v`, for `v` in range.
pub open spec fn amount_of_units(v: int) -> FixedPointAmount {
    FixedPointAmount { units: v as i64 }
}

impl FixedPointAmount {
    /// The zero amount.
    pub fn zero() -> (r: Self)
        ensures
            r@ == 0,
    {
        FixedPointAmount { units: 0 }
    }

    /// Construct from a scaled-integer count of ten-thousandths.
    pub fn from_units(units: i64) -> (r: Self)
        ensures
            r@ == units as int,
    {
        FixedPointAmount { units }
    }

    /// Exact sum, or `None` when it leaves the representable range.
    pub fn checked_add(self, other: Self) -> (r: Option<Self>)
        ensures
            fits_units(self@ + other@) ==> r == Some(amount_of_units(self@ + other@)),
            !fits_units(self@ + other@) ==> r is None,
    {
        match self.units.checked_add(other.units) {
            Some(u) => Some(FixedPointAmount { units: u }),
            None => None,
        }
    }

    /// Exact difference, or `None` when it leaves the representable range.
    pub fn checked_sub(self, other: Self) -> (r: Option<Self>)
        ensures
            fits_units(self@ - other@) ==> r == Some(amount_of_units(self@ - other@)),
            !fits_units(self@ - other@) ==> r is None,
    {
        match self.units.checked_sub(other.units) {
            Some(u) => Some(FixedPointAmount { units: u }),
            None => None,
        }
    }

    /// Exact comparison on the scaled integer.
    pub fn lt(self, other: Self) -> (r: bool)
        ensures
            r == (self@ < other@),
    {
        self.units < other.units
    }

    /// True for amounts strictly below zero.
    pub fn is_negative(self) -> (r: bool)
        ensures
            r == (self@ < 0),
    {
        self.units < 0
    }
}

} // verus!
