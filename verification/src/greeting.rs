//! The part of the day, for the words that greet the operator.

use vstd::prelude::*;

verus! {

/// The part of the day that an hour falls in.
#[derive(Clone, Copy, Debug, PartialEq, Eq)]
pub enum PartOfDay {
    Morning,
    Afternoon,
    Night,
}

/// The part of the day at `hour` o'clock: morning before noon, afternoon
/// until six, night from then on and for any hour past the clock's range.
pub open spec fn part_of_day_at(hour: int) -> PartOfDay {
    if hour <= 11 {
        PartOfDay::Morning
    } else if hour <= 17 {
        PartOfDay::Afternoon
    } else {
        PartOfDay::Night
    }
}

/// The part of the day at `hour` o'clock.
pub fn part_of_day(hour: u32) -> (part: PartOfDay)
    ensures
        part == part_of_day_at(hour as int),
{
    if hour <= 11 {
        PartOfDay::Morning
    } else if hour <= 17 {
        PartOfDay::Afternoon
    } else {
        PartOfDay::Night
    }
}

impl PartOfDay {
    /// The word for this part of the day.
    pub fn word(self) -> (word: &'static str)
        ensures
            self is Morning ==> word@ == "morning"@,
            self is Afternoon ==> word@ == "afternoon"@,
            self is Night ==> word@ == "night"@,
    {
        match self {
            PartOfDay::Morning => "morning",
            PartOfDay::Afternoon => "afternoon",
            PartOfDay::Night => "night",
        }
    }
}

} // verus!
