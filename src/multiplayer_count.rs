use vstd::prelude::*;

verus! {

/// How many players take part in a match.
#[derive(Debug, Clone, Copy, PartialEq, Eq, Structural)]
pub enum MultiplayerCount {
    Two,
    Three,
    Four,
}

impl MultiplayerCount {
    /// The number of players as an integer.
    pub open spec fn count(self) -> nat {
        match self {
            MultiplayerCount::Two => 2,
            MultiplayerCount::Three => 3,
            MultiplayerCount::Four => 4,
        }
    }

    /// The number of players.
    pub fn player_count(self) -> (r: usize)
        ensures
            r == self.count(),
            2 <= r <= 4,
    {
        match self {
            MultiplayerCount::Two => 2,
            MultiplayerCount::Three => 3,
            MultiplayerCount::Four => 4,
        }
    }

    /// The number of players as a decimal digit.
    pub fn name(self) -> (r: &'static str)
        ensures
            self == MultiplayerCount::Two ==> r@ == "2"@,
            self == MultiplayerCount::Three ==> r@ == "3"@,
            self == MultiplayerCount::Four ==> r@ == "4"@,
    {
        match self {
            MultiplayerCount::Four => "4",
            MultiplayerCount::Two => "2",
            MultiplayerCount::Three => "3",
        }
    }
}

} // verus!
