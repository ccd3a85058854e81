//! Stop levels: the product of a price and a margin is exact at eighteen
//! fractional digits, so computed levels are held at that precision.

use vstd::prelude::*;
use crate::decimal::Decimal;

verus! {

/// Fractional digits of a [`Level`].
pub const LEVEL_PLACES: u32 = 18;

/// Level atoms in one atom of a [`Decimal`]: ten to the tenth.
pub const LEVEL_PER_ATOM: i128 = 10_000_000_000;

/// Fractional digits kept in the prices of an order sent to the exchange.
pub const QUOTE_PLACES: u32 = 7;

/// Ten to the power `n`.
pub open spec fn pow10(n: nat) -> nat
    decreases n,
{
    if n == 0 {
        1
    } else {
        10 * pow10((n - 1) as nat)
    }
}

/// The distance, in level atoms, between neighbouring numbers that have at
/// most `places` fractional digits. With eighteen places or more every level
/// is such a number.
pub open spec fn grid_step(places: nat) -> int {
    if places >= LEVEL_PLACES {
        1
    } else {
        pow10((LEVEL_PLACES - places) as nat) as int
    }
}

/// `atoms` cut down to `places` fractional digits: the nearest multiple of
/// the grid step that lies between zero and `atoms`.
pub open spec fn truncated(atoms: int, places: nat) -> int {
    let step = grid_step(places);
    if atoms >= 0 {
        atoms - atoms % step
    } else {
        atoms + (-atoms) % step
    }
}

/// The absolute value of `x`.
pub open spec fn magnitude(x: int) -> int {
    if x >= 0 {
        x
    } else {
        -x
    }
}

/// Every power of ten is at least one.
pub proof fn lemma_pow10_positive(n: nat)
    ensures
        pow10(n) >= 1,
    decreases n,
{
    if n > 0 {
        lemma_pow10_positive((n - 1) as nat);
    }
}

/// A higher exponent gives no smaller a power of ten.
pub proof fn lemma_pow10_increases(lo: nat, hi: nat)
    requires
        lo <= hi,
    ensures
        pow10(lo) <= pow10(hi),
    decreases hi,
{
    if lo < hi {
        lemma_pow10_increases(lo, (hi - 1) as nat);
    }
}

/// Ten to the eighth: the atoms in one unit of a decimal.
pub proof fn lemma_pow10_eight()
    ensures
        pow10(8) == 100_000_000,
{
    reveal_with_fuel(pow10, 9);
}

/// Ten to a sum of exponents is the product of the powers.
pub proof fn lemma_pow10_split(a: nat, b: nat)
    ensures
        pow10(a + b) == pow10(a) * pow10(b),
    decreases a,
{
    if a > 0 {
        lemma_pow10_split((a - 1) as nat, b);
        assert(pow10(a + b) == 10 * pow10((a - 1 + b) as nat));
        assert(10 * (pow10((a - 1) as nat) * pow10(b)) == (10 * pow10((a - 1) as nat)) * pow10(b))
            by (nonlinear_arith);
    } else {
        assert(pow10(0) * pow10(b) == pow10(b)) by (nonlinear_arith)
            requires
                pow10(0) == 1,
        ;
    }
}

/// Ten to the eighteenth: the atoms in one unit of a level.
pub proof fn lemma_pow10_eighteen()
    ensures
        pow10(18) == 1_000_000_000_000_000_000,
{
    reveal_with_fuel(pow10, 19);
}

/// Truncation moves a level towards zero by less than one grid step, onto
/// the grid, and never across zero.
pub proof fn lemma_truncation_never_grows(atoms: int, places: nat)
    ensures
        magnitude(truncated(atoms, places)) <= magnitude(atoms),
        magnitude(atoms) - magnitude(truncated(atoms, places)) < grid_step(places),
        atoms >= 0 ==> truncated(atoms, places) >= 0,
        atoms <= 0 ==> truncated(atoms, places) <= 0,
        truncated(atoms, places) % grid_step(places) == 0,
        truncated(truncated(atoms, places), places) == truncated(atoms, places),
{
    let step = grid_step(places);
    if places < LEVEL_PLACES {
        lemma_pow10_positive((LEVEL_PLACES - places) as nat);
    }
    assert(step >= 1);
    let m = magnitude(atoms);
    assert(0 <= m % step < step);
    assert(m - m % step == step * (m / step)) by {
        vstd::arithmetic::div_mod::lemma_fundamental_div_mod(m, step);
    }
    assert((step * (m / step)) % step == 0) by {
        vstd::arithmetic::div_mod::lemma_mod_multiples_basic(m / step, step);
        vstd::arithmetic::mul::lemma_mul_is_commutative(step, m / step);
    }
    assert((-(step * (m / step))) % step == 0) by {
        vstd::arithmetic::div_mod::lemma_mod_multiples_basic(-(m / step), step);
        vstd::arithmetic::mul::lemma_mul_unary_negation(m / step, step);
        vstd::arithmetic::mul::lemma_mul_is_commutative(step, m / step);
    }
}

/// A stop level with exactly eighteen fractional digits.
///
/// The number stands for `atoms / 10^18`; every `i128` is a valid count.
#[derive(Clone, Copy, Debug, PartialEq, Eq, PartialOrd, Ord, Hash)]
pub struct Level {
    pub atoms: i128,
}

impl View for Level {
    type V = int;

    /// The count of atoms, as a mathematical integer.
    open spec fn view(&self) -> int {
        self.atoms as int
    }
}

/// Ten to the power `n`, for the exponents that a level can use.
pub(crate) fn power_of_ten(n: u32) -> (p: i128)
    requires
        n <= LEVEL_PLACES,
    ensures
        p == pow10(n as nat),
        1 <= p <= 1_000_000_000_000_000_000,
{
    let mut p: i128 = 1;
    let mut i: u32 = 0;
    while i < n
        invariant
            i <= n <= LEVEL_PLACES,
            p == pow10(i as nat),
        decreases n - i,
    {
        proof {
            lemma_pow10_increases((i + 1) as nat, LEVEL_PLACES as nat);
            lemma_pow10_eighteen();
        }
        p = p * 10;
        i = i + 1;
    }
    proof {
        lemma_pow10_increases(n as nat, LEVEL_PLACES as nat);
        lemma_pow10_eighteen();
        lemma_pow10_positive(n as nat);
    }
    p
}

impl Level {
    /// The level that holds `atoms` units of ten to the minus eighteen.
    pub fn from_atoms(atoms: i128) -> (l: Level)
        ensures
            l@ == atoms,
    {
        Level { atoms }
    }

    /// The level zero.
    pub fn zero() -> (l: Level)
        ensures
            l@ == 0,
    {
        Level { atoms: 0 }
    }

    /// The count of atoms.
    pub fn atoms(&self) -> (a: i128)
        ensures
            a == self@,
    {
        self.atoms
    }

    /// The level that stands for the same number as `d`.
    pub fn from_decimal(d: Decimal) -> (l: Level)
        ensures
            l@ == d@ * LEVEL_PER_ATOM,
    {
        let wide: i128 = d.atoms as i128;
        Level { atoms: wide * LEVEL_PER_ATOM }
    }

    /// Cuts the level down to `places` fractional digits, towards zero.
    pub fn truncate(self, places: u32) -> (t: Level)
        ensures
            t@ == truncated(self@, places as nat),
            magnitude(t@) <= magnitude(self@),
    {
        proof {
            lemma_truncation_never_grows(self@, places as nat);
        }
        if places >= LEVEL_PLACES {
            return self;
        }
        let step: i128 = power_of_ten(LEVEL_PLACES - places);
        let rest: i128 = self.atoms % step;
        Level { atoms: self.atoms - rest }
    }
}

} // verus!
