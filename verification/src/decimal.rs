//! Exchange decimals: prices, quantities and percentages with eight
//! fractional digits, held as a signed count of atoms.

use vstd::prelude::*;

verus! {

/// Fractional digits of a [`Decimal`].
pub const DECIMAL_PLACES: u32 = 8;

/// Atoms in one whole unit of a [`Decimal`]: ten to the eighth.
pub const ATOMS_PER_UNIT: i64 = 100_000_000;

/// A decimal number with exactly eight fractional digits.
///
/// The number stands for `atoms / 10^8`; every `i64` is a valid count.
#[derive(Clone, Copy, Debug, PartialEq, Eq, PartialOrd, Ord, Hash)]
pub struct Decimal {
    pub atoms: i64,
}

impl View for Decimal {
    type V = int;

    /// The count of atoms, as a mathematical integer.
    open spec fn view(&self) -> int {
        self.atoms as int
    }
}

impl Decimal {
    /// The decimal that holds `atoms` hundred-millionths.
    pub fn from_atoms(atoms: i64) -> (d: Decimal)
        ensures
            d@ == atoms,
    {
        Decimal { atoms }
    }

    /// The decimal that stands for the whole number `units`.
    pub fn from_units(units: i32) -> (d: Decimal)
        ensures
            d@ == units * ATOMS_PER_UNIT,
    {
        let wide: i64 = units as i64;
        Decimal { atoms: wide * ATOMS_PER_UNIT }
    }

    /// The count of atoms.
    pub fn atoms(&self) -> (a: i64)
        ensures
            a == self@,
    {
        self.atoms
    }
}

} // verus!
