use vstd::prelude::*;

verus! {

/// One of the three rounds of a match.
#[derive(Debug, Clone, Copy, PartialEq, Eq, Hash, Structural)]
pub enum RoundNumber {
    One,
    Two,
    Three,
}

impl RoundNumber {
    /// The round number as an integer.
    pub open spec fn value(self) -> nat {
        match self {
            RoundNumber::One => 1,
            RoundNumber::Two => 2,
            RoundNumber::Three => 3,
        }
    }

    /// The round that follows this one; a match has no round after the third.
    pub fn next(self) -> (r: Option<RoundNumber>)
        ensures
            self == RoundNumber::Three <==> r is None,
            r is Some ==> r->0.value() == self.value() + 1,
    {
        match self {
            RoundNumber::One => Some(RoundNumber::Two),
            RoundNumber::Two => Some(RoundNumber::Three),
            RoundNumber::Three => None,
        }
    }

    /// The round number as a decimal digit.
    pub fn name(self) -> (r: &'static str)
        ensures
            self == RoundNumber::One ==> r@ == "1"@,
            self == RoundNumber::Two ==> r@ == "2"@,
            self == RoundNumber::Three ==> r@ == "3"@,
    {
        match self {
            RoundNumber::One => "1",
            RoundNumber::Two => "2",
            RoundNumber::Three => "3",
        }
    }
}

} // verus!
