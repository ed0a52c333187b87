use crate::multiplayer_count::MultiplayerCount;
use crate::player::Player;
use crate::player_number::PlayerNumber;
use crate::round_number::RoundNumber;
use vstd::prelude::*;

verus! {

/// The players of a match, in seat order.
#[derive(Debug, Clone)]
pub struct GamePlayers {
    players: Vec<Player>,
    multiplayer_count: MultiplayerCount,
}

/// A win was registered for a player who does not take part.
#[derive(Debug, Clone, Copy, PartialEq, Eq, Structural)]
pub enum MissingPlayerError {
    MissingPlayer,
}

impl MissingPlayerError {
    pub fn message(&self) -> (r: &'static str)
        ensures
            r@ == "Requested player is not registered!"@,
    {
        "Requested player is not registered!"
    }
}

impl View for GamePlayers {
    type V = (Seq<(PlayerNumber, Seq<RoundNumber>)>, MultiplayerCount);

    closed spec fn view(&self) -> (Seq<(PlayerNumber, Seq<RoundNumber>)>, MultiplayerCount) {
        (self.players@.map_values(|p: Player| p@), self.multiplayer_count)
    }
}

impl GamePlayers {
    /// One player per seat, numbered in seat order.
    pub open spec fn wf(&self) -> bool {
        &&& self@.0.len() == self@.1.count()
        &&& forall|i: int| 0 <= i < self@.0.len() ==> #[trigger] self@.0[i].0 == PlayerNumber::at_index(i)
    }

    /// Players one to `multiplayer_count`, none with a win yet.
    pub fn new(multiplayer_count: MultiplayerCount) -> (r: Self)
        ensures
            r.wf(),
            r@.1 == multiplayer_count,
            forall|i: int| 0 <= i < r@.0.len() ==> #[trigger] r@.0[i].1 == Seq::<RoundNumber>::empty(),
    {
        let n = multiplayer_count.player_count();
        let mut players: Vec<Player> = Vec::with_capacity(4);
        let mut i: usize = 0;
        while i < n
            invariant
                i <= n,
                n == multiplayer_count.count(),
                n <= 4,
                players@.len() == i,
                forall|j: int| 0 <= j < i ==> (#[trigger] players@[j])@.0 == PlayerNumber::at_index(j),
                forall|j: int| 0 <= j < i ==> (#[trigger] players@[j])@.1 == Seq::<RoundNumber>::empty(),
            decreases n - i,
        {
            players.push(Player::new(PlayerNumber::from_seat_index(i)));
            i = i + 1;
        }
        GamePlayers { players, multiplayer_count }
    }

    pub fn multiplayer_count(&self) -> (r: MultiplayerCount)
        ensures
            r == self@.1,
    {
        self.multiplayer_count
    }

    /// The players in seat order.
    pub fn as_vec(&self) -> (r: Vec<&Player>)
        ensures
            r@.len() == self@.0.len(),
            forall|i: int| 0 <= i < r@.len() ==> (#[trigger] r@[i])@ == self@.0[i],
    {
        let mut vec: Vec<&Player> = Vec::with_capacity(4);
        let mut i: usize = 0;
        while i < self.players.len()
            invariant
                i <= self.players@.len(),
                vec@.len() == i,
                forall|j: int| 0 <= j < i ==> (#[trigger] vec@[j])@ == self@.0[j],
            decreases self.players@.len() - i,
        {
            vec.push(&self.players[i]);
            i = i + 1;
        }
        vec
    }

    /// Records that `player_number` won `round_number`; fails when that player does not take
    /// part.
    pub fn register_win(&mut self, player_number: PlayerNumber, round_number: RoundNumber) -> (r:
        Result<(), MissingPlayerError>)
        requires
            old(self).wf(),
            player_number.index() < old(self)@.0.len() ==> !old(self)@.0[player_number.index() as int].1.contains(round_number),
        ensures
            final(self).wf(),
            r is Ok <==> player_number.index() < old(self)@.1.count(),
            r is Err ==> final(self)@ == old(self)@,
            r is Ok ==> final(self)@ == (old(self)@.0.update(
                player_number.index() as int,
                (player_number, old(self)@.0[player_number.index() as int].1.push(round_number)),
            ), old(self)@.1),
    {
        let index = player_number.seat_index();
        if index >= self.players.len() {
            return Err(MissingPlayerError::MissingPlayer);
        }
        let mut player = self.players.remove(index);
        player.register_win(round_number);
        self.players.insert(index, player);
        proof {
            assert(self@.0 =~= old(self)@.0.update(
                player_number.index() as int,
                (player_number, old(self)@.0[player_number.index() as int].1.push(round_number)),
            ));
        }
        Ok(())
    }
}

} // verus!
