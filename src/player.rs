use crate::player_number::PlayerNumber;
use crate::round_number::RoundNumber;
use vstd::prelude::*;

verus! {

/// A participant of a match, with the rounds it has won.
#[derive(Debug, Clone)]
pub struct Player {
    player_number: PlayerNumber,
    wins: Vec<RoundNumber>,
}

impl View for Player {
    type V = (PlayerNumber, Seq<RoundNumber>);

    closed spec fn view(&self) -> (PlayerNumber, Seq<RoundNumber>) {
        (self.player_number, self.wins@)
    }
}

impl Player {
    pub fn new(player_number: PlayerNumber) -> (r: Self)
        ensures
            r@.0 == player_number,
            r@.1 == Seq::<RoundNumber>::empty(),
    {
        Player { player_number, wins: Vec::new() }
    }

    pub fn number(&self) -> (r: PlayerNumber)
        ensures
            r == self@.0,
    {
        self.player_number
    }

    /// Records a round won; a round is won at most once.
    pub fn register_win(&mut self, round_number: RoundNumber)
        requires
            !old(self)@.1.contains(round_number),
        ensures
            final(self)@.0 == old(self)@.0,
            final(self)@.1 == old(self)@.1.push(round_number),
    {
        self.wins.push(round_number);
    }

    /// The rounds won, in the order they were won.
    pub fn wins(&self) -> (r: &Vec<RoundNumber>)
        ensures
            r@ == self@.1,
    {
        &self.wins
    }
}

} // verus!
