use crate::multiplayer_count::MultiplayerCount;
use crate::player_number::PlayerNumber;
use crate::random_source::RandomSource;
use vstd::prelude::*;

verus! {

/// Lowest maximum health a round may draw for a player count.
pub open spec fn min_health(count: MultiplayerCount) -> int {
    match count {
        MultiplayerCount::Two => 3,
        MultiplayerCount::Three => 4,
        MultiplayerCount::Four => 3,
    }
}

/// Highest maximum health a round may draw for a player count.
pub open spec fn top_health(count: MultiplayerCount) -> int {
    match count {
        MultiplayerCount::Two => 4,
        MultiplayerCount::Three => 5,
        MultiplayerCount::Four => 5,
    }
}

/// What a round is set up with: every player's maximum health, who moves first, and how many
/// players there are.
#[derive(Debug, Clone)]
pub struct RoundStartInfo {
    max_health: i32,
    starting_player: PlayerNumber,
    player_count: MultiplayerCount,
}

impl RoundStartInfo {
    pub closed spec fn spec_max_health(&self) -> int {
        self.max_health as int
    }

    pub closed spec fn spec_player_count(&self) -> MultiplayerCount {
        self.player_count
    }

    pub closed spec fn spec_starting_player(&self) -> PlayerNumber {
        self.starting_player
    }

    /// The maximum health lies in the range drawn for the player count.
    pub open spec fn wf(&self) -> bool {
        min_health(self.spec_player_count()) <= self.spec_max_health() <= top_health(
            self.spec_player_count(),
        )
    }

    /// Draws the round's maximum health uniformly from the range for the player count.
    pub fn new<R: RandomSource>(
        starting_player: PlayerNumber,
        player_count: MultiplayerCount,
        rng: &mut R,
    ) -> (r: Self)
        ensures
            r.wf(),
            r.spec_player_count() == player_count,
            r.spec_starting_player() == starting_player,
    {
        let max_health = match player_count {
            MultiplayerCount::Two => rng.health_in(3, 5),
            MultiplayerCount::Three => rng.health_in(4, 6),
            MultiplayerCount::Four => rng.health_in(3, 6),
        };
        RoundStartInfo { max_health, starting_player, player_count }
    }

    pub fn max_health(&self) -> (r: i32)
        ensures
            r == self.spec_max_health(),
    {
        self.max_health
    }

    pub fn player_count(&self) -> (r: MultiplayerCount)
        ensures
            r == self.spec_player_count(),
    {
        self.player_count
    }

    pub fn starting_player(&self) -> (r: PlayerNumber)
        ensures
            r == self.spec_starting_player(),
    {
        self.starting_player
    }
}

} // verus!
