use crate::multiplayer_count::MultiplayerCount;
use crate::random_source::RandomSource;
use vstd::prelude::*;

verus! {

/// Most shells one loadout can hold.
pub const MAX_SHELLS: u32 = 8;

/// A count of live and blank shells.
#[derive(Debug, Clone, Copy)]
struct Sequence {
    num_live: usize,
    num_blank: usize,
}

/// The shells and items of one loadout.
pub struct Loadout {
    pub initial_blank_rounds: usize,
    pub initial_live_rounds: usize,
    pub new_items: usize,
}

/// The canonical (live, blank) combinations for a player count, one of which each loadout
/// takes, uniformly.
pub open spec fn sequence_table(count: MultiplayerCount) -> Seq<(usize, usize)> {
    match count {
        MultiplayerCount::Two => seq![
            (1usize, 1usize),
            (1, 2),
            (2, 1),
            (2, 2),
            (2, 3),
            (3, 1),
            (3, 2),
            (3, 3),
            (4, 2),
        ],
        MultiplayerCount::Three => seq![
            (1usize, 1usize),
            (2, 2),
            (2, 3),
            (3, 1),
            (3, 2),
            (3, 3),
            (3, 4),
            (4, 2),
            (4, 3),
            (4, 4),
        ],
        MultiplayerCount::Four => seq![
            (2usize, 1usize),
            (2, 2),
            (3, 1),
            (3, 2),
            (3, 3),
            (3, 4),
            (3, 4),
            (4, 2),
            (4, 3),
            (4, 4),
        ],
    }
}

/// Fewest new items per seat that a loadout hands out for a player count.
pub open spec fn min_new_items(count: MultiplayerCount) -> nat {
    match count {
        MultiplayerCount::Two => 2,
        MultiplayerCount::Three => 3,
        MultiplayerCount::Four => 2,
    }
}

/// Most new items per seat that a loadout hands out for a player count.
pub open spec fn top_new_items(count: MultiplayerCount) -> nat {
    match count {
        MultiplayerCount::Two => 4,
        MultiplayerCount::Three => 5,
        MultiplayerCount::Four => 4,
    }
}

impl Loadout {
    /// Whether this loadout is one that `count` players can be dealt: a canonical shell
    /// combination and a new-item count in range.
    pub open spec fn valid_for(&self, count: MultiplayerCount) -> bool {
        &&& sequence_table(count).contains((self.initial_live_rounds, self.initial_blank_rounds))
        &&& min_new_items(count) <= self.new_items <= top_new_items(count)
    }

    /// Draws a loadout: the shell combination first, then the new-item count.
    pub fn new<R: RandomSource>(multiplayer_count: MultiplayerCount, rng: &mut R) -> (r: Self)
        ensures
            r.valid_for(multiplayer_count),
    {
        let sequence = get_sequence(multiplayer_count, rng);
        let new_items = match multiplayer_count {
            MultiplayerCount::Two => rng.index_in(2, 5),
            MultiplayerCount::Three => rng.index_in(3, 6),
            MultiplayerCount::Four => rng.index_in(2, 5),
        };
        Loadout {
            initial_blank_rounds: sequence.num_blank,
            initial_live_rounds: sequence.num_live,
            new_items,
        }
    }
}

/// The canonical shell combinations for a player count, in table order.
pub fn sequence_options(multiplayer_count: MultiplayerCount) -> (r: Vec<(usize, usize)>)
    ensures
        r@ == sequence_table(multiplayer_count),
{
    let sequences = match multiplayer_count {
        MultiplayerCount::Two => vec![
            s(1, 1),
            s(1, 2),
            s(2, 1),
            s(2, 2),
            s(2, 3),
            s(3, 1),
            s(3, 2),
            s(3, 3),
            s(4, 2),
        ],
        MultiplayerCount::Three => vec![
            s(1, 1),
            s(2, 2),
            s(2, 3),
            s(3, 1),
            s(3, 2),
            s(3, 3),
            s(3, 4),
            s(4, 2),
            s(4, 3),
            s(4, 4),
        ],
        MultiplayerCount::Four => vec![
            s(2, 1),
            s(2, 2),
            s(3, 1),
            s(3, 2),
            s(3, 3),
            s(3, 4),
            s(3, 4),
            s(4, 2),
            s(4, 3),
            s(4, 4),
        ],
    };
    assert(sequences@ =~= sequence_table(multiplayer_count));
    sequences
}

/// Picks one canonical shell combination uniformly.
fn get_sequence<R: RandomSource>(multiplayer_count: MultiplayerCount, rng: &mut R) -> (r: Sequence)
    ensures
        sequence_table(multiplayer_count).contains((r.num_live, r.num_blank)),
{
    let sequences = sequence_options(multiplayer_count);
    let sequence_index = rng.index_in(0, sequences.len());
    let (num_live, num_blank) = sequences[sequence_index];
    assert(sequence_table(multiplayer_count)[sequence_index as int] == (num_live, num_blank));
    Sequence { num_live, num_blank }
}

/// A (live, blank) pair.
pub fn s(num_live: usize, num_blank: usize) -> (r: (usize, usize))
    ensures
        r == (num_live, num_blank),
{
    (num_live, num_blank)
}

} // verus!
