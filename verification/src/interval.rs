//! The interval catalogue: the closed set of semitone-offset roles the
//! classifier recognizes, and the suffix token each contributes when it
//! serves as the chord's third.

use vstd::prelude::*;

verus! {

/// A semitone-offset role, from the minor second (one semitone above the
/// root) up to the major seventh (eleven semitones).
#[derive(Clone, Copy, PartialEq, Eq, Debug)]
pub enum Interval {
    MinorSecond,
    MajorSecond,
    MinorThird,
    MajorThird,
    PerfectForth,
    Tritone,
    PerfectFifth,
    SharpFifth,
    Sixth,
    MinorSeventh,
    MajorSeventh,
}

/// The semitone offset each role stands for.
pub open spec fn offset_of(iv: Interval) -> int {
    match iv {
        Interval::MinorSecond => 1,
        Interval::MajorSecond => 2,
        Interval::MinorThird => 3,
        Interval::MajorThird => 4,
        Interval::PerfectForth => 5,
        Interval::Tritone => 6,
        Interval::PerfectFifth => 7,
        Interval::SharpFifth => 8,
        Interval::Sixth => 9,
        Interval::MinorSeventh => 10,
        Interval::MajorSeventh => 11,
    }
}

/// The quality token a role contributes when it is the chord's third:
/// suspended spellings for the seconds and the fourth, "m" for the minor
/// third, and nothing for the major third or any other role.
pub open spec fn third_suffix(iv: Interval) -> Seq<char> {
    match iv {
        Interval::MinorSecond => "sus(b2)"@,
        Interval::MajorSecond => "sus2"@,
        Interval::MinorThird => "m"@,
        Interval::PerfectForth => "sus4"@,
        _ => Seq::<char>::empty(),
    }
}

impl Interval {
    /// The quality token this role contributes as the chord's third.
    pub fn get_third(self) -> (r: String)
        ensures
            r@ == third_suffix(self),
    {
        match self {
            Interval::MinorSecond => String::from_str("sus(b2)"),
            Interval::MajorSecond => String::from_str("sus2"),
            Interval::MinorThird => String::from_str("m"),
            Interval::PerfectForth => String::from_str("sus4"),
            _ => String::new(),
        }
    }
}

} // verus!
