//! Units for spatial quantities.

use vstd::prelude::*;

verus! {

/// A unit for length, expressed exactly as a whole number of nanometers.
///
/// All provided units are exact in this representation, so unit bookkeeping
/// stays free of rounding.
#[derive(Clone, Copy, Debug, PartialEq, Eq, Structural)]
pub struct Length {
    /// The length unit expressed in nanometers.
    pub in_nanometers: u64,
}

impl Length {
    /// Returns a new unit based on the provided length in nanometers.
    pub fn new(in_nanometers: u64) -> (r: Self)
        ensures
            r.in_nanometers == in_nanometers,
    {
        Self { in_nanometers }
    }

    /// The millimeter unit.
    pub fn millimeter() -> (r: Self)
        ensures
            r.in_nanometers == 1_000_000u64,
    {
        Self { in_nanometers: 1_000_000 }
    }

    /// The centimeter unit.
    pub fn centimeter() -> (r: Self)
        ensures
            r.in_nanometers == 10_000_000u64,
    {
        Self { in_nanometers: 10_000_000 }
    }

    /// The meter unit.
    pub fn meter() -> (r: Self)
        ensures
            r.in_nanometers == 1_000_000_000u64,
    {
        Self { in_nanometers: 1_000_000_000 }
    }

    /// The kilometer unit.
    pub fn kilometer() -> (r: Self)
        ensures
            r.in_nanometers == 1_000_000_000_000u64,
    {
        Self { in_nanometers: 1_000_000_000_000 }
    }

    /// The inch unit.
    pub fn inch() -> (r: Self)
        ensures
            r.in_nanometers == 25_399_990u64,
    {
        Self { in_nanometers: 25_399_990 }
    }

    /// The feet unit.
    pub fn feet() -> (r: Self)
        ensures
            r.in_nanometers == 304_800_000u64,
    {
        Self { in_nanometers: 304_800_000 }
    }

    /// The mile unit.
    pub fn mile() -> (r: Self)
        ensures
            r.in_nanometers == 1_609_344_000_000u64,
    {
        Self { in_nanometers: 1_609_344_000_000 }
    }

    /// Returns the unit in nanometers.
    pub fn get_unit_in_nanometers(&self) -> (r: u64)
        ensures
            r == self.in_nanometers,
    {
        self.in_nanometers
    }
}

} // verus!
