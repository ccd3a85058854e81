//! The margin fraction: the gap kept between the price and the trailing
//! stop, as a fraction of the price.

use vstd::prelude::*;
use crate::decimal::Decimal;

verus! {

/// The margin that stands for one hundred percent, in ten-billionths.
pub const WHOLE: i64 = 10_000_000_000;

/// A margin fraction strictly between zero and one.
///
/// It is held as a percentage with eight fractional digits, which is the
/// same number as the fraction counted in ten-billionths.
#[derive(Clone, Copy, Debug, PartialEq, Eq)]
pub struct Margin {
    percent: Decimal,
}

impl View for Margin {
    type V = int;

    /// The fraction in ten-billionths: `fraction * 10^10`.
    closed spec fn view(&self) -> int {
        self.percent.atoms as int
    }
}

impl Margin {
    /// A margin lies strictly between zero and one.
    #[verifier::type_invariant]
    pub open spec fn wf(self) -> bool {
        0 < self@ < WHOLE
    }

    /// The margin of `percent` percent, where that lies strictly between
    /// zero and one hundred.
    pub fn from_percent(percent: Decimal) -> (m: Option<Margin>)
        ensures
            m is Some <==> 0 < percent@ < WHOLE,
            m matches Some(margin) ==> margin@ == percent@ && margin.wf(),
    {
        if 0 < percent.atoms && percent.atoms < WHOLE {
            Some(Margin { percent })
        } else {
            None
        }
    }

    /// The margin `fraction`, where that lies strictly between zero and one.
    pub fn from_fraction(fraction: Decimal) -> (m: Option<Margin>)
        ensures
            m is Some <==> 0 < fraction@ * 100 < WHOLE,
            m matches Some(margin) ==> margin@ == fraction@ * 100 && margin.wf(),
    {
        if 0 < fraction.atoms && fraction.atoms < WHOLE / 100 {
            Some(Margin { percent: Decimal { atoms: fraction.atoms * 100 } })
        } else {
            None
        }
    }

    /// The margin as a percentage.
    pub fn percent(&self) -> (p: Decimal)
        ensures
            p@ == self@,
            0 < p@ < WHOLE,
    {
        proof {
            use_type_invariant(self);
        }
        self.percent
    }
}

} // verus!
