use vstd::prelude::*;

verus! {

/// Identity of a player, which is also the seat position it occupies (player one sits in
/// seat zero).
#[derive(Debug, Clone, Copy, PartialEq, Eq, Structural)]
pub enum PlayerNumber {
    One,
    Two,
    Three,
    Four,
}

impl PlayerNumber {
    /// The seat position of this player.
    pub open spec fn index(self) -> nat {
        match self {
            PlayerNumber::One => 0,
            PlayerNumber::Two => 1,
            PlayerNumber::Three => 2,
            PlayerNumber::Four => 3,
        }
    }

    /// The player sitting at seat position `i` (`i < 4`).
    pub open spec fn at_index(i: int) -> PlayerNumber {
        if i == 0 {
            PlayerNumber::One
        } else if i == 1 {
            PlayerNumber::Two
        } else if i == 2 {
            PlayerNumber::Three
        } else {
            PlayerNumber::Four
        }
    }

    /// Seat position of this player.
    pub fn seat_index(self) -> (r: usize)
        ensures
            r == self.index(),
            r < 4,
            PlayerNumber::at_index(r as int) == self,
    {
        match self {
            PlayerNumber::One => 0,
            PlayerNumber::Two => 1,
            PlayerNumber::Three => 2,
            PlayerNumber::Four => 3,
        }
    }

    /// The player at seat position `i`.
    pub fn from_seat_index(i: usize) -> (r: PlayerNumber)
        requires
            i < 4,
        ensures
            r == PlayerNumber::at_index(i as int),
            r.index() == i,
    {
        if i == 0 {
            PlayerNumber::One
        } else if i == 1 {
            PlayerNumber::Two
        } else if i == 2 {
            PlayerNumber::Three
        } else {
            PlayerNumber::Four
        }
    }

    /// The player's name as a word ("One" .. "Four").
    pub fn name(self) -> (r: &'static str)
        ensures
            self == PlayerNumber::One ==> r@ == "One"@,
            self == PlayerNumber::Two ==> r@ == "Two"@,
            self == PlayerNumber::Three ==> r@ == "Three"@,
            self == PlayerNumber::Four ==> r@ == "Four"@,
    {
        match self {
            PlayerNumber::One => "One",
            PlayerNumber::Two => "Two",
            PlayerNumber::Three => "Three",
            PlayerNumber::Four => "Four",
        }
    }
}

} // verus!
