use crate::game_players::GamePlayers;
use crate::item::{
    count_of, global_limit, initialize_item_count_map, item_at, item_position, lemma_count_le_len,
    lemma_count_push, lemma_count_remove, player_limit, table_entries, table_get, table_insert,
    unary, within_player_limits, Item, NotAdreneline, UnaryItem, TOTAL_ITEMS,
};
use crate::loadout::{min_new_items, sequence_table, top_new_items, Loadout};
use crate::multiplayer_count::MultiplayerCount;
use crate::player_number::PlayerNumber;
use crate::random_source::RandomSource;
use crate::round_model::{
    adreneline_jammer_use, adreneline_use, after_shot, alive_count, dealt_size, dealt_sizes,
    eligible_seat, first_index, fresh_player, fresh_shells, item_use_keeps, jam_error, jammer_use,
    lap_passed, lemma_alive_all, lemma_alive_exists, lemma_alive_same, lemma_alive_update,
    items_extended, lemma_first_index, lemma_global_keep, reloaded, uniform_items, lemma_scan_step, lemma_steps_next, scan, scan_fuel,
    turn_passed, lemma_items_total_below, lemma_lap_bound,
    lemma_lap_not_eligible, lemma_lap_result, lemma_lap_seats, lemma_lap_start, lemma_lap_step,
    lemma_shell_push, lemma_total_empty, lemma_total_le_items, lemma_total_update,
    lemma_visit_weight, living_seats, next_index, none_eligible_within, seat_ok,
    shell_count_of, shot_health, steps_to, stun_reachable, stun_weight, table_total, unary_effect,
    unary_result_ok, unary_use, visited, within_global_limits, RoundModel,
};
use crate::round_number::RoundNumber;
use crate::round_player::{RoundPlayer, RoundPlayerView, StunState};
use crate::round_start_info::RoundStartInfo;
use crate::seat::{damage_of, lemma_pool_has, Seat, SeatModel, SeatView, MAX_ITEMS};
use crate::shell::{flipped, Shell, ShellType, ShotgunDamage};
use crate::turn::{
    terminal_ok, InvalidItemUseError, ItemUseResult, LearnedShell, ShotgunRackResult, TakenAction,
    TerminalAction, Turn,
};
use indexmap::IndexMap;
use std::collections::VecDeque;
use vstd::std_specs::iter::IteratorSpec;
use vstd::prelude::*;

verus! {

/// Modifiers that outlast a single action: turn-order inversion lasts until toggled again,
/// a sawn shotgun until the next shot.
#[derive(Debug, Clone, Copy, PartialEq, Eq, Structural)]
pub struct GameModifiers {
    pub turn_order_inverted: bool,
    pub shotgun_sawn: bool,
}

/// One round of a match: the seats, whose turn it is, the shell queue and the modifiers.
#[derive(Debug)]
pub struct Round<R> {
    round_number: RoundNumber,
    seats: Vec<Seat>,
    game_modifiers: GameModifiers,
    active_seat_index: usize,
    first_dead_player: Option<PlayerNumber>,
    start_info: RoundStartInfo,
    shells: VecDeque<Shell>,
    rng: R,
}

impl<R> View for Round<R> {
    type V = RoundModel;

    closed spec fn view(&self) -> RoundModel {
        RoundModel {
            number: self.round_number,
            seats: self.seats@.map_values(|s: Seat| s@),
            modifiers: self.game_modifiers,
            active: self.active_seat_index as int,
            first_dead: self.first_dead_player,
            max_health: self.start_info.spec_max_health(),
            count: self.start_info.spec_player_count(),
            shells: self.shells@,
        }
    }
}

/// Where a shot went and what it did.
#[derive(Debug, Clone, Copy, PartialEq, Eq, Structural)]
pub struct ShotResult {
    pub target_player: PlayerNumber,
    pub damage: ShotgunDamage,
}

/// How a round goes on after an action.
#[derive(Debug, Clone, Copy, PartialEq, Eq, Structural)]
pub enum TurnContinuation {
    /// The same player acts again: an item use left the turn open.
    TurnOpen,
    /// The turn passed (or a blank self-shot kept it) and the shells that remain stay loaded.
    LoadoutContinues,
    /// The shell queue ran out and a new loadout was dealt; the player moves first in it.
    LoadoutEnds(PlayerNumber),
}

/// A round that goes on, and how.
#[derive(Debug)]
pub struct ContinuedRound<R> {
    pub turn_continuation: TurnContinuation,
    pub round: Round<R>,
}

/// A round that goes on, or one that ended.
#[derive(Debug)]
pub enum RoundContinuation<R> {
    RoundContinues(ContinuedRound<R>),
    RoundEnds(FinishedRound<R>),
}

/// What one call of `with_turn` did.
#[derive(Debug)]
pub struct TurnSummary<R> {
    pub shot_result: Option<ShotResult>,
    pub round_continuation: RoundContinuation<R>,
}

/// What a shot at `target` in round `m` produced (see `Round::resolve_action`).
pub open spec fn shot_resolved<R>(m: RoundModel, target: PlayerNumber, r: TurnSummary<R>) -> bool {
    let a = after_shot(m, target);
    let stays = m.shells[0].0 == ShellType::Blank && target.index() == m.active;
    &&& r.shot_result == Some(ShotResult {
        target_player: target,
        damage: damage_of(m.shells[0].0, m.modifiers.shotgun_sawn, shot_health(m, target)),
    })
    &&& r.round_continuation is RoundEnds <==> (shot_health(m, target) == 0 && alive_count(m.seats) == 2)
    &&& r.round_continuation matches RoundContinuation::RoundEnds(f) ==> {
        &&& f.final_state() == a
        &&& a.first_dead == Some(f.spec_first_dead())
        &&& alive_count(a.seats) == 1
        &&& f.spec_winner().index() < m.seats.len()
        &&& a.seats[f.spec_winner().index() as int].player is Some
        &&& f.spec_winner() != target
    }
    &&& r.round_continuation matches RoundContinuation::RoundContinues(c) ==> {
        &&& c.round@.ready()
        &&& m.shells.len() > 1 ==> c.turn_continuation == TurnContinuation::LoadoutContinues && if stays {
            c.round@ == a
        } else {
            turn_passed(a, c.round@)
        }
        &&& m.shells.len() == 1 ==> c.turn_continuation == TurnContinuation::LoadoutEnds(
            c.round@.seats[c.round@.active].number,
        ) && exists|mid: RoundModel|
            (if stays { mid == a } else { turn_passed(a, mid) }) && #[trigger] reloaded(mid, c.round@)
    }
}

/// What ending a turn by emptying the queue with Beer in round `m` produced: the saw is
/// cleared, a new loadout is dealt and the turn passes; nobody is hurt.
pub open spec fn item_turn_resolved<R>(m: RoundModel, r: TurnSummary<R>) -> bool {
    let m0 = RoundModel { modifiers: GameModifiers { shotgun_sawn: false, ..m.modifiers }, ..m };
    &&& r.shot_result is None
    &&& r.round_continuation matches RoundContinuation::RoundContinues(c) && {
        &&& c.round@.ready()
        &&& c.turn_continuation == TurnContinuation::LoadoutEnds(c.round@.seats[c.round@.active].number)
        &&& exists|mid: RoundModel| reloaded(m0, mid) && #[trigger] turn_passed(mid, c.round@)
    }
}

/// What settling `taken` produced: an open turn keeps the round as the action left it; a
/// turn ended by Beer or by a shot (at a living player, with a shell loaded) is settled as
/// `item_turn_resolved` and `shot_resolved` say.
pub open spec fn action_resolved<R>(taken: TakenAction<R>, r: TurnSummary<R>) -> bool {
    match taken {
        TakenAction::Continued(c) => {
            &&& r.shot_result is None
            &&& r.round_continuation matches RoundContinuation::RoundContinues(cr)
                && cr.turn_continuation == TurnContinuation::TurnOpen
                && cr.round@ == c.spec_state()
                && cr.round@.ready()
        },
        TakenAction::Terminal(t) => terminal_ok(t.spec_state(), t.spec_action()) && match t.spec_action() {
            TerminalAction::Item(_) => item_turn_resolved(t.spec_state(), r),
            TerminalAction::Shot(target) => shot_resolved(t.spec_state(), target, r),
        },
    }
}

/// A summary that leaves a playable round, or a finished one with its winner, for round
/// `number` of `count` players.
pub open spec fn summary_ok<R>(r: TurnSummary<R>, number: RoundNumber, count: MultiplayerCount) -> bool {
    match r.round_continuation {
        RoundContinuation::RoundContinues(c) => {
            &&& c.round@.ready()
            &&& c.round@.number == number
            &&& c.round@.count == count
        },
        RoundContinuation::RoundEnds(f) => {
            &&& f.final_state().number == number
            &&& f.final_state().count == count
            &&& f.spec_winner().index() < count.count()
        },
    }
}

/// A decision function that acts on the turn it is handed: the action it returns belongs to
/// the same round.
pub open spec fn acts_on_its_turn<R, F: FnOnce(Turn<R>) -> TakenAction<R>>(f: F) -> bool {
    forall|t: Turn<R>, a: TakenAction<R>| #[trigger] f.ensures((t,), a) ==> {
        &&& a.spec_state().number == t.spec_state().number
        &&& a.spec_state().count == t.spec_state().count
    }
}

/// Settling an action keeps the round's number and player count and leaves either a
/// playable round or a winner.
pub proof fn lemma_resolved_ok<R>(taken: TakenAction<R>, r: TurnSummary<R>)
    requires
        action_resolved(taken, r),
        taken.spec_state().base_wf(),
        taken matches TakenAction::Terminal(t) ==> terminal_ok(t.spec_state(), t.spec_action()),
    ensures
        summary_ok(r, taken.spec_state().number, taken.spec_state().count),
{
    match taken {
        TakenAction::Continued(_) => {},
        TakenAction::Terminal(t) => {
            let m = t.spec_state();
            match t.spec_action() {
                TerminalAction::Item(_) => {
                    let m0 = RoundModel { modifiers: GameModifiers { shotgun_sawn: false, ..m.modifiers }, ..m };
                    match r.round_continuation {
                        RoundContinuation::RoundContinues(c) => {
                            let mid = choose|mid: RoundModel| reloaded(m0, mid) && #[trigger] turn_passed(mid, c.round@);
                            assert(c.round@.number == mid.number);
                        },
                        RoundContinuation::RoundEnds(_) => {},
                    }
                },
                TerminalAction::Shot(target) => {
                    let a = after_shot(m, target);
                    let stays = m.shells[0].0 == ShellType::Blank && target.index() == m.active;
                    match r.round_continuation {
                        RoundContinuation::RoundContinues(c) => {
                            if m.shells.len() == 1 {
                                let mid = choose|mid: RoundModel|
                                    (if stays { mid == a } else { turn_passed(a, mid) }) && #[trigger] reloaded(mid, c.round@);
                                assert(c.round@.number == mid.number);
                            }
                        },
                        RoundContinuation::RoundEnds(_) => {},
                    }
                },
            }
        },
    }
}

/// A round that ended with one player left.
#[derive(Debug)]
pub struct FinishedRound<R> {
    round: Round<R>,
    first_dead_player: PlayerNumber,
    winner: PlayerNumber,
}

/// What a new round starts from: the finished previous round, or a fresh random source for
/// the first round.
#[derive(Debug)]
pub enum FinishedRoundOrRng<R> {
    FinishedRound(FinishedRound<R>),
    Rng(R),
}

/// A finished round: its invariant holds, exactly one player is alive, the winner is that
/// player, and the first player to die is recorded (so it is not the winner).
pub open spec fn finished_ok(m: RoundModel, winner: PlayerNumber, first_dead: PlayerNumber) -> bool {
    &&& m.base_wf()
    &&& alive_count(m.seats) == 1
    &&& winner.index() < m.seats.len()
    &&& m.seats[winner.index() as int].player is Some
    &&& m.first_dead == Some(first_dead)
    &&& winner != first_dead
}

impl<R> FinishedRound<R> {
    #[verifier::type_invariant]
    spec fn inv(self) -> bool {
        finished_ok(self.round@, self.winner, self.first_dead_player)
    }

    pub closed spec fn spec_winner(&self) -> PlayerNumber {
        self.winner
    }

    pub closed spec fn spec_first_dead(&self) -> PlayerNumber {
        self.first_dead_player
    }

    /// The final state of the round.
    pub closed spec fn final_state(&self) -> RoundModel {
        self.round@
    }

    /// The last player alive, who won the round.
    pub fn winner(&self) -> (r: PlayerNumber)
        ensures
            r == self.spec_winner(),
            finished_ok(self.final_state(), r, self.spec_first_dead()),
    {
        proof {
            use_type_invariant(self);
        }
        self.winner
    }

    pub fn number(&self) -> (r: RoundNumber)
        ensures
            r == self.final_state().number,
    {
        self.round.round_number
    }

    pub fn first_dead_player(&self) -> (r: PlayerNumber)
        ensures
            r == self.spec_first_dead(),
    {
        self.first_dead_player
    }
}

/// Where the first `target` sits in `items`, or `error` when it is absent.
pub fn check_item_in_inventory(items: &Vec<Item>, target_item: Item, error: InvalidItemUseError) -> (r:
    Result<usize, InvalidItemUseError>)
    ensures
        r is Ok <==> items@.contains(target_item),
        r is Ok ==> r->Ok_0 == first_index(items@, target_item) && r->Ok_0 < items@.len()
            && items@[r->Ok_0 as int] == target_item,
        r is Err ==> r->Err_0 == error,
{
    let mut i: usize = 0;
    while i < items.len()
        invariant
            i <= items@.len(),
            forall|j: int| 0 <= j < i ==> items@[j] != target_item,
        decreases items@.len() - i,
    {
        if items[i] == target_item {
            proof {
                lemma_first_index(items@, target_item, i as int);
            }
            return Ok(i);
        }
        i = i + 1;
    }
    Err(error)
}

impl<R> Round<R> {
    /// The number of seats whose player is alive.
    fn count_living(&self) -> (r: usize)
        ensures
            r == alive_count(self@.seats),
    {
        let mut count: usize = 0;
        let mut i: usize = 0;
        while i < self.seats.len()
            invariant
                i <= self.seats@.len(),
                count == alive_count(self@.seats.subrange(0, i as int)),
                count <= i,
            decreases self.seats@.len() - i,
        {
            proof {
                assert(self@.seats.subrange(0, i + 1).drop_last() =~= self@.seats.subrange(0, i as int));
            }
            if self.seats[i].is_occupied() {
                count = count + 1;
            }
            i = i + 1;
        }
        assert(self@.seats.subrange(0, self.seats@.len() as int) =~= self@.seats);
        count
    }

    /// Index of the seat whose turn it is.
    pub(crate) fn active_index(&self) -> (r: usize)
        ensures
            r == self@.active,
    {
        self.active_seat_index
    }

    /// The inventory of the active seat.
    pub(crate) fn active_items(&self) -> (r: &Vec<Item>)
        requires
            self@.base_wf(),
        ensures
            r@ == self@.seats[self@.active].items,
    {
        self.seats[self.active_seat_index].items()
    }

    /// The player of the active seat.
    pub(crate) fn active_player(&self) -> (r: &RoundPlayer)
        requires
            self@.base_wf(),
            self@.seats[self@.active].player is Some,
        ensures
            r@ == self@.seats[self@.active].player->0,
    {
        self.seats[self.active_seat_index].player().unwrap()
    }

    /// What the active player sees of every other seat, in seat order.
    pub(crate) fn other_seat_views(&self) -> (r: Vec<SeatView>)
        requires
            self@.base_wf(),
        ensures
            r@.len() == self@.seats.len() - 1,
            forall|i: int| 0 <= i < r@.len() ==> {
                let k = if i < self@.active { i } else { i + 1 };
                &&& (#[trigger] r@[i]).player_number == self@.seats[k].number
                &&& r@[i].items@ == self@.seats[k].items
                &&& r@[i].stun_state == (match self@.seats[k].player {
                    Some(p) => Some(p.stun),
                    None => None::<StunState>,
                })
            },
    {
        let mut views: Vec<SeatView> = Vec::with_capacity(4);
        let mut index: usize = 0;
        while index < self.seats.len()
            invariant
                index <= self@.seats.len(),
                self@.base_wf(),
                views@.len() == if index <= self@.active { index as int } else { index - 1 },
                forall|i: int| 0 <= i < views@.len() ==> {
                    let k = if i < self@.active { i } else { i + 1 };
                    &&& (#[trigger] views@[i]).player_number == self@.seats[k].number
                    &&& views@[i].items@ == self@.seats[k].items
                    &&& views@[i].stun_state == (match self@.seats[k].player {
                        Some(p) => Some(p.stun),
                        None => None::<StunState>,
                    })
                },
            decreases self@.seats.len() - index,
        {
            if index != self.active_seat_index {
                views.push(self.seats[index].create_view());
            }
            index = index + 1;
        }
        views
    }

    pub fn number(&self) -> (r: RoundNumber)
        ensures
            r == self@.number,
    {
        self.round_number
    }

    pub fn max_health(&self) -> (r: i32)
        ensures
            r == self@.max_health,
    {
        self.start_info.max_health()
    }

    /// The player whose turn it is.
    pub fn next_player(&self) -> (r: PlayerNumber)
        requires
            self@.base_wf(),
        ensures
            r == self@.seats[self@.active].number,
    {
        self.seats[self.active_seat_index].player_number()
    }

    pub fn seats(&self) -> (r: &Vec<Seat>)
        ensures
            r@.map_values(|s: Seat| s@) == self@.seats,
    {
        &self.seats
    }

    /// The shells still to be fired, front first.
    pub fn shells(&self) -> (r: &VecDeque<Shell>)
        ensures
            r@ == self@.shells,
    {
        &self.shells
    }

    pub fn game_modifiers(&self) -> (r: &GameModifiers)
        ensures
            *r == self@.modifiers,
    {
        &self.game_modifiers
    }

    pub fn first_dead_player(&self) -> (r: Option<PlayerNumber>)
        ensures
            r == self@.first_dead,
    {
        self.first_dead_player
    }

    /// The seats whose player is alive, in seat order.
    pub fn living_players(&self) -> (r: std::vec::IntoIter<&Seat>)
        ensures
            r.remaining().map_values(|s: &Seat| s@) == living_seats(self@.seats),
    {
        let mut living: Vec<&Seat> = Vec::with_capacity(4);
        let mut i: usize = 0;
        while i < self.seats.len()
            invariant
                i <= self.seats@.len(),
                living@.map_values(|s: &Seat| s@) == living_seats(self@.seats.subrange(0, i as int)),
            decreases self.seats@.len() - i,
        {
            proof {
                assert(self@.seats.subrange(0, i + 1).drop_last() =~= self@.seats.subrange(0, i as int));
            }
            if self.seats[i].is_occupied() {
                living.push(&self.seats[i]);
                proof {
                    assert(living@.map_values(|s: &Seat| s@) =~= living_seats(self@.seats.subrange(0, i as int)).push(self@.seats[i as int]));
                }
            }
            i = i + 1;
        }
        assert(self@.seats.subrange(0, self.seats@.len() as int) =~= self@.seats);
        proof {
            broadcast use vstd::std_specs::vec::axiom_spec_into_iter;
        }
        living.into_iter()
    }
}

impl<R: RandomSource> Round<R> {
    /// Sets up a round: round one from a fresh random source with player one to move, a later
    /// round from the finished previous one, whose first dead player moves first and whose
    /// random source is carried on. Every player starts at the round's maximum health, and the
    /// first loadout is dealt at once.
    pub fn new(game_players: &GamePlayers, round_or_rng: FinishedRoundOrRng<R>) -> (r: Self)
        requires
            game_players.wf(),
            round_or_rng matches FinishedRoundOrRng::FinishedRound(f) ==> f.final_state().number != RoundNumber::Three
                && f.final_state().count == game_players@.1,
        ensures
            r@.ready(),
            r@.count == game_players@.1,
            r@.first_dead is None,
            r@.modifiers == (GameModifiers { turn_order_inverted: false, shotgun_sawn: false }),
            forall|i: int| 0 <= i < r@.seats.len() ==> (#[trigger] r@.seats[i]).player == Some(
                fresh_player(PlayerNumber::at_index(i), r@.max_health),
            ),
            round_or_rng is Rng ==> r@.number == RoundNumber::One && r@.active == 0,
            round_or_rng matches FinishedRoundOrRng::FinishedRound(f) ==> {
                &&& r@.number.value() == f.final_state().number.value() + 1
                &&& r@.active == f.spec_first_dead().index()
            },
            fresh_shells(r@),
            exists|n: nat|
                min_new_items(r@.count) <= n <= top_new_items(r@.count) && #[trigger] uniform_items(r@.seats, n),
    {
        let players = game_players.as_vec();
        let player_count = game_players.multiplayer_count();
        let round_number;
        let starting_player;
        let mut rng;
        match round_or_rng {
            FinishedRoundOrRng::FinishedRound(finished_round) => {
                proof {
                    use_type_invariant(&finished_round);
                }
                round_number = match finished_round.round.round_number {
                    RoundNumber::One => RoundNumber::Two,
                    RoundNumber::Two => RoundNumber::Three,
                    RoundNumber::Three => RoundNumber::Three,
                };
                starting_player = finished_round.first_dead_player;
                rng = finished_round.round.rng;
            },
            FinishedRoundOrRng::Rng(initial_rng) => {
                round_number = RoundNumber::One;
                starting_player = PlayerNumber::One;
                rng = initial_rng;
            },
        }
        let start_info = RoundStartInfo::new(starting_player, player_count, &mut rng);
        let mut turn_index: usize = 0;
        let mut seats: Vec<Seat> = Vec::with_capacity(4);
        let mut i: usize = 0;
        while i < players.len()
            invariant
                i <= players@.len(),
                players@.len() == game_players@.0.len(),
                game_players.wf(),
                start_info.wf(),
                start_info.spec_player_count() == player_count,
                player_count == game_players@.1,
                seats@.len() == i,
                turn_index < 4,
                turn_index <= i,
                (starting_player.index() < i ==> turn_index == starting_player.index()),
                (starting_player.index() >= i ==> turn_index == 0),
                forall|j: int| 0 <= j < i ==> (#[trigger] seats@[j])@ == (SeatModel {
                    number: PlayerNumber::at_index(j),
                    player: Some(fresh_player(PlayerNumber::at_index(j), start_info.spec_max_health())),
                    items: Seq::empty(),
                }),
                forall|j: int| 0 <= j < players@.len() ==> (#[trigger] players@[j])@ == game_players@.0[j],
            decreases players@.len() - i,
        {
            let player = players[i];
            if player.number() == starting_player {
                turn_index = i;
            }
            seats.push(Seat::new(RoundPlayer::new(player, &start_info)));
            i = i + 1;
        }
        let mut round = Round {
            round_number,
            first_dead_player: None,
            game_modifiers: GameModifiers { turn_order_inverted: false, shotgun_sawn: false },
            seats,
            start_info,
            shells: VecDeque::with_capacity(8),
            rng,
            active_seat_index: turn_index,
        };
        proof {
            assert forall|j: int| 0 <= j < round@.seats.len() implies (#[trigger] round@.seats[j]).player is Some by {
                assert(round@.seats[j] == seats@[j]@);
            }
            lemma_alive_all(round@.seats);
            reveal(within_player_limits);
            assert(within_player_limits(Seq::<Item>::empty()));
            assert forall|j: int| 0 <= j < round@.seats.len() implies (#[trigger] round@.seats[j]).items.len() == 0 by {
                assert(round@.seats[j] == seats@[j]@);
            }
            lemma_total_empty(round@.seats);
            assert forall|j: int| 0 <= j < round@.seats.len() implies seat_ok(#[trigger] round@.seats[j], j, round@.max_health) by {
                assert(round@.seats[j] == seats@[j]@);
            }
        }
        let ghost dealt_from = round@;
        round.new_loadout();
        proof {
            let n = choose|n: nat|
                min_new_items(dealt_from.count) <= n <= top_new_items(dealt_from.count)
                    && #[trigger] dealt_sizes(dealt_from.seats, round@.seats, n);
            assert forall|j: int| 0 <= j < round@.seats.len() implies (#[trigger] round@.seats[j]).items.len() == n by {
                assert(dealt_from.seats[j] == seats@[j]@);
            }
            assert(uniform_items(round@.seats, n));
        }
        round
    }

    /// Considers a scheduled turn of seat `idx` (see `visited`). Returns whether its player
    /// takes the turn, and the seat's player number.
    fn visit_seat(&mut self, idx: usize) -> (r: (bool, PlayerNumber))
        requires
            old(self)@.base_wf(),
            idx < old(self)@.seats.len(),
        ensures
            final(self)@ == (RoundModel {
                seats: old(self)@.seats.update(idx as int, visited(old(self)@.seats[idx as int])),
                ..old(self)@
            }),
            final(self)@.base_wf(),
            alive_count(final(self)@.seats) == alive_count(old(self)@.seats),
            r.0 == (old(self)@.seats[idx as int].player is Some
                && old(self)@.seats[idx as int].player->0.stun == StunState::Unstunned),
            r.1 == old(self)@.seats[idx as int].number,
    {
        let ghost before = self@;
        let mut seat = self.seats.remove(idx);
        let eligible = seat.update_stun_for_turn();
        let number = seat.player_number();
        self.seats.insert(idx, seat);
        proof {
            assert(self@.seats =~= before.seats.update(idx as int, seat@));
            assert(seat@ == visited(before.seats[idx as int]));
            lemma_alive_update(before.seats, idx as int, seat@);
            lemma_global_keep(before.seats, idx as int, seat@);
            assert forall|s: int| 0 <= s < self@.seats.len() implies seat_ok(#[trigger] self@.seats[s], s, self@.max_health) by {
                assert(seat_ok(before.seats[s], s, before.max_health));
            }
        }
        (eligible, number)
    }

    /// Passes the turn to the next seat in turn order whose player is alive and not stunned.
    /// Every living player passed on the way moves one step out of a stun. Returns the
    /// player who moves next.
    #[verifier::rlimit(90)]
    #[verifier::spinoff_prover]
    fn advance_turn(&mut self) -> (r: PlayerNumber)
        requires
            old(self)@.base_wf(),
            alive_count(old(self)@.seats) >= 1,
        ensures
            final(self)@.base_wf(),
            turn_passed(old(self)@, final(self)@),
            r == final(self)@.seats[final(self)@.active].number,
    {
        let ghost start = self@;
        let ghost len = self@.seats.len() as int;
        let ghost inverted = self@.modifiers.turn_order_inverted;
        proof {
            lemma_alive_exists(start.seats);
        }
        let ghost jstar = choose|j: int| 0 <= j < start.seats.len() && (#[trigger] start.seats[j]).player is Some;
        let ghost mut fuel: nat = scan_fuel(start.seats);
        proof {
            lemma_steps_next(start.active, jstar, len, inverted);
            assert(0 <= stun_weight(start.seats) as int * len) by (nonlinear_arith)
                requires
                    0 <= len,
            ;
        }
        let ghost mut first = true;
        let ghost n0 = next_index(start.active, len, inverted);
        let ghost e = exists|j: int| 0 <= j < len && eligible_seat(#[trigger] start.seats[j]);
        let ghost mut steps: int = 0;
        proof {
            lemma_lap_start(start.seats, start.active, len, inverted);
        }
        let last_seat_index = self.seats.len() - 1;
        loop
            invariant
                start == old(self)@,
                n0 == next_index(start.active, len, inverted),
                start.base_wf(),
                len == start.seats.len(),
                len >= 2,
                last_seat_index == len - 1,
                inverted == start.modifiers.turn_order_inverted,
                0 <= jstar < len,
                start.seats[jstar].player is Some,
                self@.base_wf(),
                self@ == (RoundModel { seats: self@.seats, active: self@.active, ..start }),
                self@.seats.len() == len,
                forall|i: int| 0 <= i < len ==> {
                    &&& (#[trigger] self@.seats[i]).number == start.seats[i].number
                    &&& self@.seats[i].items == start.seats[i].items
                    &&& (self@.seats[i].player is Some <==> start.seats[i].player is Some)
                    &&& start.seats[i].player is Some ==> {
                        &&& self@.seats[i].player->0 == (RoundPlayerView {
                            stun: self@.seats[i].player->0.stun,
                            ..start.seats[i].player->0
                        })
                        &&& stun_reachable(start.seats[i].player->0.stun, self@.seats[i].player->0.stun)
                    }
                },
                alive_count(self@.seats) == alive_count(start.seats),
                first ==> self@ == start,
                first <==> steps == 0,
                steps >= 0,
                e == exists|j: int| 0 <= j < len && eligible_seat(#[trigger] start.seats[j]),
                e ==> none_eligible_within(start.seats, start.active, len, inverted, steps),
                e && steps >= 1 ==> steps_to(start.active, self@.active, len, inverted) == steps,
                e ==> lap_passed(start.seats, self@.seats, start.active, len, inverted, steps),
                scan(start.seats, start.active, len, inverted, scan_fuel(start.seats))
                    == scan(self@.seats, self@.active, len, inverted, fuel),
                fuel > stun_weight(self@.seats) * len + steps_to(self@.active, jstar, len, inverted),
                !first ==> !(start.seats[n0].player is Some && start.seats[n0].player->0.stun == StunState::Unstunned),
            decreases stun_weight(self@.seats), steps_to(self@.active, jstar, len, inverted),
        {
            let ghost before = self@;
            if self.game_modifiers.turn_order_inverted {
                if self.active_seat_index == 0 {
                    self.active_seat_index = last_seat_index;
                } else {
                    self.active_seat_index = self.active_seat_index - 1;
                }
            } else if self.active_seat_index == last_seat_index {
                self.active_seat_index = 0;
            } else {
                self.active_seat_index = self.active_seat_index + 1;
            }
            let idx = self.active_seat_index;
            assert(idx == next_index(before.active, len, inverted));
            proof {
                lemma_scan_step(before.seats, before.active, len, inverted, fuel, jstar);
            }
            proof {
                if e {
                    let j0 = choose|j: int| 0 <= j < len && eligible_seat(#[trigger] start.seats[j]);
                    lemma_lap_bound(start.seats, start.active, len, inverted, steps, j0);
                    lemma_lap_step(start.active, len, inverted, before.active, steps, j0);
                }
            }
            let (eligible, number) = self.visit_seat(idx);
            proof {
                lemma_visit_weight(before.seats, idx as int);
                if e {
                    lemma_lap_seats(start.seats, before.seats, self@.seats, start.active, len, inverted, idx as int, steps);
                    if eligible {
                        lemma_lap_result(start.seats, self@.seats, start.active, len, inverted, idx as int, steps);
                    } else {
                        lemma_lap_not_eligible(start.seats, start.active, len, inverted, idx as int, steps);
                    }
                }
                steps = steps + 1;
                if !eligible {
                    fuel = (fuel - 1) as nat;
                }
                if first {
                    if eligible {
                        assert(self@.seats =~= start.seats);
                    }
                }
                first = false;
            }
            if eligible {
                return number;
            }
        }
    }

    /// Hands seat `i` one item drawn from its pool, unless its player is dead or its
    /// inventory full; `table` holds how many of each item the seats hold.
    #[verifier::rlimit(40)]
    fn deal_to_seat(&mut self, i: usize, remaining_players: usize, table: &IndexMap<usize, usize>) -> (r: Option<Item>)
        requires
            old(self)@.base_wf(),
            i < old(self)@.seats.len(),
            remaining_players == alive_count(old(self)@.seats),
            forall|k: usize| k < TOTAL_ITEMS ==> #[trigger] table_entries(*table).contains_key(k),
            forall|k: usize| k < TOTAL_ITEMS ==> #[trigger] table_entries(*table)[k]
                == table_total(old(self)@.seats, item_at(k as int)),
        ensures
            final(self)@.base_wf(),
            final(self)@ == (RoundModel { seats: final(self)@.seats, ..old(self)@ }),
            final(self)@.seats == old(self)@.seats.update(
                i as int,
                SeatModel { items: final(self)@.seats[i as int].items, ..old(self)@.seats[i as int] },
            ),
            alive_count(final(self)@.seats) == alive_count(old(self)@.seats),
            r is Some <==> (old(self)@.seats[i as int].player is Some
                && old(self)@.seats[i as int].items.len() < MAX_ITEMS),
            r is None ==> final(self)@.seats == old(self)@.seats,
            r is Some ==> final(self)@.seats[i as int].items == old(self)@.seats[i as int].items.push(r->0),
            r is Some && remaining_players <= 2 ==> r->0 != unary(UnaryItem::Remote),
            forall|it: Item| #[trigger] table_total(final(self)@.seats, it) == table_total(old(self)@.seats, it)
                + if r == Some(it) { 1nat } else { 0nat },
    {
        let ghost before = self@;
        proof {
            assert(seat_ok(before.seats[i as int], i as int, before.max_health));
            if before.seats[i as int].player is Some && before.seats[i as int].items.len() < MAX_ITEMS {
                let phone = item_at(1);
                lemma_count_le_len(before.seats[i as int].items, phone);
                assert forall|s: int| 0 <= s < before.seats.len() implies (#[trigger] before.seats[s]).items.len() <= MAX_ITEMS by {
                    assert(seat_ok(before.seats[s], s, before.max_health));
                }
                lemma_total_le_items(before.seats, phone);
                lemma_items_total_below(before.seats, i as int);
                assert(table_entries(*table)[1] == table_total(before.seats, phone));
                lemma_pool_has(before.seats[i as int].items, table_entries(*table), remaining_players as nat, TOTAL_ITEMS as int, 1);
            }
        }
        let mut seat = self.seats.remove(i);
        let added = seat.get_new_item(remaining_players, table, &mut self.rng);
        self.seats.insert(i, seat);
        proof {
            assert(self@.seats =~= before.seats.update(i as int, seat@));
            assert forall|s: int| 0 <= s < self@.seats.len() implies seat_ok(#[trigger] self@.seats[s], s, self@.max_health) by {
                assert(seat_ok(before.seats[s], s, before.max_health));
            }
            lemma_alive_update(before.seats, i as int, seat@);
            assert forall|it: Item| #[trigger] table_total(self@.seats, it) == table_total(before.seats, it)
                + if added == Some(it) { 1nat } else { 0nat } by {
                lemma_total_update(before.seats, i as int, seat@, it);
                match added {
                    Some(item) => {
                        lemma_count_push(before.seats[i as int].items, item, it);
                    },
                    None => {},
                }
            }
            reveal(within_global_limits);
            assert forall|it: Item| #[trigger] table_total(self@.seats, it) <= global_limit(it) by {
                assert(table_total(before.seats, it) <= global_limit(it));
                match added {
                    Some(item) => {
                        if item == it {
                            assert(table_entries(*table)[item_position(item) as usize] == table_total(before.seats, item));
                        }
                    },
                    None => {},
                }
            }
            if added is None {
                assert(self@.seats =~= before.seats);
            }
        }
        added
    }

    /// Deals a new loadout into an empty shell queue: draws the shell combination and the
    /// number of new items, hands the items out one per seat per pass under the caps, then
    /// loads the shells, choosing live or blank by a coin while both remain.
    #[verifier::spinoff_prover]
    fn new_loadout(&mut self)
        requires
            old(self)@.base_wf(),
            old(self)@.shells.len() == 0,
        ensures
            final(self)@.base_wf(),
            final(self)@.number == old(self)@.number,
            final(self)@.modifiers == old(self)@.modifiers,
            final(self)@.active == old(self)@.active,
            final(self)@.first_dead == old(self)@.first_dead,
            final(self)@.max_health == old(self)@.max_health,
            final(self)@.count == old(self)@.count,
            final(self)@.seats.len() == old(self)@.seats.len(),
            forall|i: int| 0 <= i < final(self)@.seats.len() ==> {
                &&& (#[trigger] final(self)@.seats[i]).number == old(self)@.seats[i].number
                &&& final(self)@.seats[i].player == old(self)@.seats[i].player
            },
            sequence_table(old(self)@.count).contains((
                shell_count_of(final(self)@.shells, ShellType::Live) as usize,
                shell_count_of(final(self)@.shells, ShellType::Blank) as usize,
            )),
            final(self)@.shells.len() == shell_count_of(final(self)@.shells, ShellType::Live)
                + shell_count_of(final(self)@.shells, ShellType::Blank),
            final(self)@.shells.len() > 0,
            fresh_shells(final(self)@),
            alive_count(final(self)@.seats) == alive_count(old(self)@.seats),
            exists|n: nat|
                min_new_items(old(self)@.count) <= n <= top_new_items(old(self)@.count)
                    && #[trigger] dealt_sizes(old(self)@.seats, final(self)@.seats, n),
            reloaded(old(self)@, final(self)@),
    {
        let ghost start = self@;
        let loadout = Loadout::new(self.start_info.player_count(), &mut self.rng);
        let remaining_players = self.count_living();
        let mut global_item_counts = initialize_item_count_map();
        let mut i: usize = 0;
        while i < self.seats.len()
            invariant
                self@ == start,
                start.base_wf(),
                i <= start.seats.len(),
                forall|k: usize| k < TOTAL_ITEMS ==> #[trigger] table_entries(global_item_counts).contains_key(k),
                forall|k: usize| k < TOTAL_ITEMS ==> #[trigger] table_entries(global_item_counts)[k]
                    == table_total(start.seats.subrange(0, i as int), item_at(k as int)),
                forall|k: usize| k < TOTAL_ITEMS ==> #[trigger] table_entries(global_item_counts)[k] <= 8 * i,
            decreases self.seats@.len() - i,
        {
            let ghost items = start.seats[i as int].items;
            proof {
                assert(seat_ok(start.seats[i as int], i as int, start.max_health));
            }
            let mut j: usize = 0;
            while j < self.seats[i].items().len()
                invariant
                    self@ == start,
                    start.base_wf(),
                    i < start.seats.len(),
                    items == start.seats[i as int].items,
                    items.len() <= MAX_ITEMS,
                    j <= items.len(),
                    forall|k: usize| k < TOTAL_ITEMS ==> #[trigger] table_entries(global_item_counts).contains_key(k),
                    forall|k: usize| k < TOTAL_ITEMS ==> #[trigger] table_entries(global_item_counts)[k]
                        == table_total(start.seats.subrange(0, i as int), item_at(k as int))
                            + count_of(items.subrange(0, j as int), item_at(k as int)),
                    forall|k: usize| k < TOTAL_ITEMS ==> #[trigger] table_entries(global_item_counts)[k] <= 8 * i + j,
                decreases items.len() - j,
            {
                let item = self.seats[i].items()[j];
                let position = item.position();
                let current = table_get(&global_item_counts, position);
                let c = match current {
                    Some(c) => c,
                    None => 0,
                };
                table_insert(&mut global_item_counts, position, c + 1);
                proof {
                    assert(items.subrange(0, j + 1) =~= items.subrange(0, j as int).push(item));
                    assert forall|k: usize| k < TOTAL_ITEMS implies #[trigger] table_entries(global_item_counts)[k]
                        == table_total(start.seats.subrange(0, i as int), item_at(k as int))
                            + count_of(items.subrange(0, j + 1), item_at(k as int)) by {
                        lemma_count_push(items.subrange(0, j as int), item, item_at(k as int));
                        if k != position {
                            assert(item != item_at(k as int));
                        }
                    }
                }
                j = j + 1;
            }
            proof {
                assert(items.subrange(0, items.len() as int) =~= items);
                assert(start.seats.subrange(0, i + 1).drop_last() =~= start.seats.subrange(0, i as int));
            }
            i = i + 1;
        }
        proof {
            assert(start.seats.subrange(0, start.seats.len() as int) =~= start.seats);
        }
        proof {
            assert forall|s: int| 0 <= s < self@.seats.len() implies items_extended(
                start.seats[s].items,
                (#[trigger] self@.seats[s]).items,
                remaining_players <= 2,
            ) by {
                assert(start.seats[s].items.subrange(0, start.seats[s].items.len() as int) =~= start.seats[s].items);
            }
        }
        let mut pass: usize = 0;
        while pass < loadout.new_items
            invariant
                self@.base_wf(),
                loadout.valid_for(start.count),
                pass <= loadout.new_items,
                remaining_players == alive_count(start.seats),
                forall|s: int| 0 <= s < self@.seats.len() ==> items_extended(
                    start.seats[s].items,
                    (#[trigger] self@.seats[s]).items,
                    remaining_players <= 2,
                ),
                alive_count(self@.seats) == alive_count(start.seats),
                forall|s: int| 0 <= s < self@.seats.len() ==> (#[trigger] self@.seats[s]).items.len()
                    == if start.seats[s].player is Some {
                    dealt_size(start.seats[s].items.len(), pass as nat)
                } else {
                    start.seats[s].items.len()
                },
                self@.number == start.number,
                self@.modifiers == start.modifiers,
                self@.active == start.active,
                self@.first_dead == start.first_dead,
                self@.max_health == start.max_health,
                self@.count == start.count,
                self@.shells == start.shells,
                self@.seats.len() == start.seats.len(),
                forall|s: int| 0 <= s < self@.seats.len() ==> {
                    &&& (#[trigger] self@.seats[s]).number == start.seats[s].number
                    &&& self@.seats[s].player == start.seats[s].player
                },
                forall|k: usize| k < TOTAL_ITEMS ==> #[trigger] table_entries(global_item_counts).contains_key(k),
                forall|k: usize| k < TOTAL_ITEMS ==> #[trigger] table_entries(global_item_counts)[k]
                    == table_total(self@.seats, item_at(k as int)),
            decreases loadout.new_items - pass,
        {
            let mut i: usize = 0;
            while i < self.seats.len()
                invariant
                    self@.base_wf(),
                    pass < loadout.new_items,
                    remaining_players == alive_count(start.seats),
                    alive_count(self@.seats) == alive_count(start.seats),
                    i <= self@.seats.len(),
                    forall|s: int| 0 <= s < self@.seats.len() ==> items_extended(
                        start.seats[s].items,
                        (#[trigger] self@.seats[s]).items,
                        remaining_players <= 2,
                    ),
                    forall|s: int| 0 <= s < self@.seats.len() ==> (#[trigger] self@.seats[s]).items.len()
                        == if start.seats[s].player is Some {
                        dealt_size(start.seats[s].items.len(), if s < i { pass as nat + 1 } else { pass as nat })
                    } else {
                        start.seats[s].items.len()
                    },
                    self@.number == start.number,
                    self@.modifiers == start.modifiers,
                    self@.active == start.active,
                    self@.first_dead == start.first_dead,
                    self@.max_health == start.max_health,
                    self@.count == start.count,
                    self@.shells == start.shells,
                    self@.seats.len() == start.seats.len(),
                    forall|s: int| 0 <= s < self@.seats.len() ==> {
                        &&& (#[trigger] self@.seats[s]).number == start.seats[s].number
                        &&& self@.seats[s].player == start.seats[s].player
                    },
                    forall|k: usize| k < TOTAL_ITEMS ==> #[trigger] table_entries(global_item_counts).contains_key(k),
                    forall|k: usize| k < TOTAL_ITEMS ==> #[trigger] table_entries(global_item_counts)[k]
                        == table_total(self@.seats, item_at(k as int)),
            decreases self.seats@.len() - i,
            {
                let ghost before = self@;
                let added = self.deal_to_seat(i, remaining_players, &global_item_counts);
                proof {
                    assert forall|s: int| 0 <= s < self@.seats.len() implies items_extended(
                        start.seats[s].items,
                        (#[trigger] self@.seats[s]).items,
                        remaining_players <= 2,
                    ) by {
                        assert(items_extended(start.seats[s].items, before.seats[s].items, remaining_players <= 2));
                        if s == i && added is Some {
                            let b = start.seats[s].items;
                            let x = added->0;
                            assert(self@.seats[s].items.subrange(0, b.len() as int)
                                =~= before.seats[s].items.subrange(0, b.len() as int));
                        }
                    }
                }
                match added {
                    Some(item) => {
                        let position = item.position();
                        let current = table_get(&global_item_counts, position);
                        let c = match current {
                            Some(c) => c,
                            None => 0,
                        };
                        proof {
                            reveal(within_global_limits);
                            assert(table_total(self@.seats, item) <= global_limit(item));
                        }
                        table_insert(&mut global_item_counts, position, c + 1);
                        proof {
                            assert forall|k: usize| k < TOTAL_ITEMS implies #[trigger] table_entries(global_item_counts)[k]
                                == table_total(self@.seats, item_at(k as int)) by {
                                if k != position {
                                    assert(item != item_at(k as int));
                                }
                            }
                        }
                    },
                    None => {},
                }
                i = i + 1;
            }
            pass = pass + 1;
        }
        let ghost dealt = self@;
        assert(dealt_sizes(start.seats, dealt.seats, loadout.new_items as nat));
        let blanks_total = loadout.initial_blank_rounds;
        let lives_total = loadout.initial_live_rounds;
        let mut blanks_to_load = blanks_total;
        let mut lives_to_load = lives_total;
        proof {
            assert(sequence_table(start.count).contains((lives_total, blanks_total)));
            let t = sequence_table(start.count);
            let k = choose|k: int| 0 <= k < t.len() && t[k] == (lives_total, blanks_total);
            assert(lives_total >= 1 && blanks_total >= 1 && lives_total <= 4 && blanks_total <= 4);
        }
        while blanks_to_load > 0 && lives_to_load > 0
            invariant
                self@ == (RoundModel { shells: self@.shells, ..dealt }),
                blanks_to_load <= blanks_total,
                lives_to_load <= lives_total,
                blanks_total <= 4,
                lives_total <= 4,
                shell_count_of(self@.shells, ShellType::Blank) + blanks_to_load == blanks_total,
                shell_count_of(self@.shells, ShellType::Live) + lives_to_load == lives_total,
                self@.shells.len() + blanks_to_load + lives_to_load == blanks_total + lives_total,
            decreases blanks_to_load + lives_to_load,
        {
            if self.rng.coin() {
                proof {
                    lemma_shell_push(self@.shells, Shell(ShellType::Blank), ShellType::Blank);
                    lemma_shell_push(self@.shells, Shell(ShellType::Blank), ShellType::Live);
                }
                self.shells.push_back(Shell::new(ShellType::Blank));
                blanks_to_load = blanks_to_load - 1;
            } else {
                proof {
                    lemma_shell_push(self@.shells, Shell(ShellType::Live), ShellType::Blank);
                    lemma_shell_push(self@.shells, Shell(ShellType::Live), ShellType::Live);
                }
                self.shells.push_back(Shell::new(ShellType::Live));
                lives_to_load = lives_to_load - 1;
            }
        }
        while blanks_to_load > 0
            invariant
                self@ == (RoundModel { shells: self@.shells, ..dealt }),
                blanks_to_load <= blanks_total,
                lives_to_load <= lives_total,
                blanks_total <= 4,
                lives_total <= 4,
                shell_count_of(self@.shells, ShellType::Blank) + blanks_to_load == blanks_total,
                shell_count_of(self@.shells, ShellType::Live) + lives_to_load == lives_total,
                self@.shells.len() + blanks_to_load + lives_to_load == blanks_total + lives_total,
            decreases blanks_to_load,
        {
            proof {
                lemma_shell_push(self@.shells, Shell(ShellType::Blank), ShellType::Blank);
                lemma_shell_push(self@.shells, Shell(ShellType::Blank), ShellType::Live);
            }
            self.shells.push_back(Shell::new(ShellType::Blank));
            blanks_to_load = blanks_to_load - 1;
        }
        while lives_to_load > 0
            invariant
                self@ == (RoundModel { shells: self@.shells, ..dealt }),
                blanks_to_load == 0,
                lives_to_load <= lives_total,
                blanks_total <= 4,
                lives_total <= 4,
                shell_count_of(self@.shells, ShellType::Blank) + blanks_to_load == blanks_total,
                shell_count_of(self@.shells, ShellType::Live) + lives_to_load == lives_total,
                self@.shells.len() + blanks_to_load + lives_to_load == blanks_total + lives_total,
            decreases lives_to_load,
        {
            proof {
                lemma_shell_push(self@.shells, Shell(ShellType::Live), ShellType::Blank);
                lemma_shell_push(self@.shells, Shell(ShellType::Live), ShellType::Live);
            }
            self.shells.push_back(Shell::new(ShellType::Live));
            lives_to_load = lives_to_load - 1;
        }
        proof {
            assert forall|s: int| 0 <= s < self@.seats.len() implies seat_ok(#[trigger] self@.seats[s], s, self@.max_health) by {
                assert(seat_ok(dealt.seats[s], s, dealt.max_health));
            }
            lemma_alive_same(self@.seats, start.seats);
        }
    }
}

impl<R: RandomSource> Round<R> {
    /// Takes the item at `index` from the inventory of seat `seat`.
    fn take_item_at(&mut self, seat: usize, index: usize)
        requires
            old(self)@.base_wf(),
            seat < old(self)@.seats.len(),
            index < old(self)@.seats[seat as int].items.len(),
        ensures
            final(self)@ == old(self)@.with_items(seat as int, old(self)@.seats[seat as int].items.remove(index as int)),
            final(self)@.base_wf(),
            alive_count(final(self)@.seats) == alive_count(old(self)@.seats),
    {
        let ghost before = self@;
        let mut s = self.seats.remove(seat);
        s.remove_item(index);
        self.seats.insert(seat, s);
        proof {
            let old_items = before.seats[seat as int].items;
            assert(seat_ok(before.seats[seat as int], seat as int, before.max_health));
            reveal(within_player_limits);
            assert forall|it: Item| #[trigger] count_of(s@.items, it) <= count_of(old_items, it) by {
                lemma_count_remove(old_items, index as int, it);
            }
            assert forall|it: Item| #[trigger] count_of(s@.items, it) <= player_limit(it) by {
                assert(count_of(old_items, it) <= player_limit(it));
            }
            lemma_global_keep(before.seats, seat as int, s@);
            assert(self@.seats =~= before.seats.update(seat as int, s@));
            lemma_alive_update(before.seats, seat as int, s@);
            assert forall|k: int| 0 <= k < self@.seats.len() implies seat_ok(#[trigger] self@.seats[k], k, self@.max_health) by {
                assert(seat_ok(before.seats[k], k, before.max_health));
            }
        }
    }

    /// Stuns the living, unstunned player of seat `seat`.
    fn stun_seat(&mut self, seat: usize)
        requires
            old(self)@.base_wf(),
            seat < old(self)@.seats.len(),
            old(self)@.seats[seat as int].player is Some,
            old(self)@.seats[seat as int].player->0.stun == StunState::Unstunned,
        ensures
            final(self)@ == old(self)@.stunned(seat as int),
            final(self)@.base_wf(),
            alive_count(final(self)@.seats) == alive_count(old(self)@.seats),
    {
        let ghost before = self@;
        let mut s = self.seats.remove(seat);
        s.stun_occupant();
        self.seats.insert(seat, s);
        proof {
            assert(self@.seats =~= before.seats.update(seat as int, s@));
            lemma_alive_update(before.seats, seat as int, s@);
            lemma_global_keep(before.seats, seat as int, s@);
            assert forall|k: int| 0 <= k < self@.seats.len() implies seat_ok(#[trigger] self@.seats[k], k, self@.max_health) by {
                assert(seat_ok(before.seats[k], k, before.max_health));
            }
        }
    }

    /// Applies the effect of unary item `u` for the active player.
    #[verifier::rlimit(50)]
    fn apply_unary_effect(&mut self, u: UnaryItem) -> (r: ItemUseResult)
        requires
            old(self)@.base_wf(),
            old(self)@.shells.len() > 0,
            old(self)@.seats[old(self)@.active].player is Some,
            u == UnaryItem::Handsaw ==> !old(self)@.modifiers.shotgun_sawn,
        ensures
            final(self)@ == unary_effect(old(self)@, u),
            unary_result_ok(old(self)@, u, r),
            final(self)@.base_wf(),
            alive_count(final(self)@.seats) == alive_count(old(self)@.seats),
    {
        let ghost before = self@;
        match u {
            UnaryItem::Remote => {
                self.game_modifiers.turn_order_inverted = !self.game_modifiers.turn_order_inverted;
                proof {
                    assert forall|k: int| 0 <= k < self@.seats.len() implies seat_ok(#[trigger] self@.seats[k], k, self@.max_health) by {
                        assert(seat_ok(before.seats[k], k, before.max_health));
                    }
                }
                ItemUseResult::Default
            },
            UnaryItem::Phone => {
                if self.shells.len() > 2 {
                    let relative_index = self.rng.index_in(2, self.shells.len());
                    let shell_type = self.shells[relative_index].shell_type();
                    ItemUseResult::LearnedShell(LearnedShell { relative_index, shell_type })
                } else {
                    ItemUseResult::Default
                }
            },
            UnaryItem::Inverter => {
                let mut shell = self.shells.pop_front().unwrap();
                shell.invert();
                self.shells.push_front(shell);
                proof {
                    assert(self@.shells =~= before.shells.update(0, Shell(flipped(before.shells[0].0))));
                }
                ItemUseResult::Default
            },
            UnaryItem::MagnifyingGlass => {
                let shell_type = self.shells[0].shell_type();
                ItemUseResult::LearnedShell(LearnedShell { relative_index: 0, shell_type })
            },
            UnaryItem::Cigarettes => {
                let active = self.active_seat_index;
                let mut s = self.seats.remove(active);
                s.heal(1);
                self.seats.insert(active, s);
                proof {
                    assert(self@.seats =~= before.seats.update(active as int, s@));
                    lemma_alive_update(before.seats, active as int, s@);
                    lemma_global_keep(before.seats, active as int, s@);
                    assert forall|k: int| 0 <= k < self@.seats.len() implies seat_ok(#[trigger] self@.seats[k], k, self@.max_health) by {
                        assert(seat_ok(before.seats[k], k, before.max_health));
                    }
                }
                ItemUseResult::Default
            },
            UnaryItem::Handsaw => {
                self.game_modifiers.shotgun_sawn = true;
                proof {
                    assert forall|k: int| 0 <= k < self@.seats.len() implies seat_ok(#[trigger] self@.seats[k], k, self@.max_health) by {
                        assert(seat_ok(before.seats[k], k, before.max_health));
                    }
                }
                ItemUseResult::Default
            },
            UnaryItem::Beer => {
                let ejected_shell = self.shells.pop_front().unwrap();
                proof {
                    assert(self@.shells =~= before.shells.drop_first());
                }
                ItemUseResult::ShotgunRacked(
                    ShotgunRackResult {
                        empty: self.shells.len() == 0,
                        ejected_shell_type: ejected_shell.shell_type(),
                    },
                )
            },
        }
    }

    /// The seat of `player_number` when it is not the active one.
    fn get_opposing_seat(&self, player_number: PlayerNumber) -> (r: Option<usize>)
        ensures
            r == (if self@.other_seat(player_number) {
                Some(player_number.index() as usize)
            } else {
                None::<usize>
            }),
    {
        let index = player_number.seat_index();
        if index < self.seats.len() && index != self.active_seat_index {
            Some(index)
        } else {
            None
        }
    }

    /// Whether `target_player` can be jammed now.
    fn check_can_jam(&self, target_player: PlayerNumber) -> (r: Result<(), InvalidItemUseError>)
        ensures
            r is Err <==> jam_error(self@, target_player) is Some,
            r is Err ==> r->Err_0 == jam_error(self@, target_player)->0,
    {
        match self.get_opposing_seat(target_player) {
            Some(index) => match self.seats[index].player() {
                Some(player) => match player.stun_state() {
                    StunState::Unstunned => Ok(()),
                    StunState::Stunned | StunState::Recovering => Err(InvalidItemUseError::DoubleStun),
                },
                None => Err(InvalidItemUseError::InvalidStunTarget),
            },
            None => Err(InvalidItemUseError::InvalidStunTarget),
        }
    }

    /// Uses unary item `unary_item` from the inventory of seat `holder` (see `unary_use`).
    pub(crate) fn use_unary_item(&mut self, holder: usize, unary_item: UnaryItem) -> (r: Result<ItemUseResult, InvalidItemUseError>)
        requires
            old(self)@.ready(),
            holder < old(self)@.seats.len(),
        ensures
            unary_use(old(self)@, holder as int, unary_item, r, final(self)@),
            item_use_keeps(old(self)@, r, final(self)@),
    {
        let item = Item::NotAdreneline(NotAdreneline::UnaryItem(unary_item));
        let index_to_remove = match check_item_in_inventory(self.seats[holder].items(), item, InvalidItemUseError::NoItem) {
            Ok(i) => i,
            Err(e) => return Err(e),
        };
        if unary_item == UnaryItem::Handsaw && self.game_modifiers.shotgun_sawn {
            return Err(InvalidItemUseError::DoubleSaw);
        }
        self.take_item_at(holder, index_to_remove);
        let result = self.apply_unary_effect(unary_item);
        Ok(result)
    }

    /// Uses Adrenaline to steal `target_item` from `target_player` (see `adreneline_use`).
    pub(crate) fn use_adreneline(&mut self, target_player: PlayerNumber, target_item: UnaryItem) -> (r: Result<ItemUseResult, InvalidItemUseError>)
        requires
            old(self)@.ready(),
        ensures
            adreneline_use(old(self)@, target_player, target_item, r, final(self)@),
            item_use_keeps(old(self)@, r, final(self)@),
    {
        let active = self.active_seat_index;
        let adreneline_index = match check_item_in_inventory(self.seats[active].items(), Item::Adreneline, InvalidItemUseError::NoItem) {
            Ok(i) => i,
            Err(e) => return Err(e),
        };
        let target = match self.get_opposing_seat(target_player) {
            Some(t) => t,
            None => return Err(InvalidItemUseError::BadAdrenelineTarget),
        };
        let item = Item::NotAdreneline(NotAdreneline::UnaryItem(target_item));
        let item_index = match check_item_in_inventory(self.seats[target].items(), item, InvalidItemUseError::BadAdrenelineTarget) {
            Ok(i) => i,
            Err(e) => return Err(e),
        };
        if target_item == UnaryItem::Handsaw && self.game_modifiers.shotgun_sawn {
            return Err(InvalidItemUseError::DoubleSaw);
        }
        self.take_item_at(target, item_index);
        self.take_item_at(active, adreneline_index);
        let result = self.apply_unary_effect(target_item);
        Ok(result)
    }

    /// Jams `target_player` (see `jammer_use`).
    pub(crate) fn use_jammer(&mut self, target_player: PlayerNumber) -> (r: Result<ItemUseResult, InvalidItemUseError>)
        requires
            old(self)@.ready(),
        ensures
            jammer_use(old(self)@, target_player, r, final(self)@),
            item_use_keeps(old(self)@, r, final(self)@),
    {
        match self.check_can_jam(target_player) {
            Ok(()) => {},
            Err(e) => return Err(e),
        }
        let active = self.active_seat_index;
        let jammer = Item::NotAdreneline(NotAdreneline::Jammer);
        let index = match check_item_in_inventory(self.seats[active].items(), jammer, InvalidItemUseError::NoItem) {
            Ok(i) => i,
            Err(e) => return Err(e),
        };
        self.take_item_at(active, index);
        self.stun_seat(target_player.seat_index());
        Ok(ItemUseResult::StunnedPlayer(target_player))
    }

    /// Steals the Jammer of `thief_from` and jams `jam_target` (see `adreneline_jammer_use`).
    pub(crate) fn use_adreneline_then_jammer(&mut self, thief_from: PlayerNumber, jam_target: PlayerNumber) -> (r: Result<ItemUseResult, InvalidItemUseError>)
        requires
            old(self)@.ready(),
        ensures
            adreneline_jammer_use(old(self)@, thief_from, jam_target, r, final(self)@),
            item_use_keeps(old(self)@, r, final(self)@),
    {
        match self.check_can_jam(jam_target) {
            Ok(()) => {},
            Err(e) => return Err(e),
        }
        let active = self.active_seat_index;
        let adreneline_index = match check_item_in_inventory(self.seats[active].items(), Item::Adreneline, InvalidItemUseError::NoItem) {
            Ok(i) => i,
            Err(e) => return Err(e),
        };
        let source = match self.get_opposing_seat(thief_from) {
            Some(t) => t,
            None => return Err(InvalidItemUseError::BadAdrenelineTarget),
        };
        let jammer = Item::NotAdreneline(NotAdreneline::Jammer);
        let jammer_index = match check_item_in_inventory(self.seats[source].items(), jammer, InvalidItemUseError::BadAdrenelineTarget) {
            Ok(i) => i,
            Err(e) => return Err(e),
        };
        self.take_item_at(source, jammer_index);
        self.take_item_at(active, adreneline_index);
        self.stun_seat(jam_target.seat_index());
        Ok(ItemUseResult::StunnedPlayer(jam_target))
    }
}

impl<R: RandomSource> Round<R> {
    /// The first seat whose player is alive.
    fn first_living_seat(&self) -> (r: usize)
        requires
            alive_count(self@.seats) >= 1,
        ensures
            r < self@.seats.len(),
            self@.seats[r as int].player is Some,
    {
        proof {
            lemma_alive_exists(self@.seats);
        }
        let mut i: usize = 0;
        while i < self.seats.len()
            invariant
                i <= self@.seats.len(),
                forall|j: int| 0 <= j < i ==> (#[trigger] self@.seats[j]).player is None,
                exists|j: int| 0 <= j < self@.seats.len() && (#[trigger] self@.seats[j]).player is Some,
            decreases self@.seats.len() - i,
        {
            if self.seats[i].is_occupied() {
                return i;
            }
            i = i + 1;
        }
        i
    }

    /// Ends a turn that Beer ended by emptying the queue: deals a new loadout and passes
    /// the turn.
    fn finish_item_turn(self) -> (r: TurnSummary<R>)
        requires
            self@.base_wf(),
            alive_count(self@.seats) >= 2,
            self@.shells.len() == 0,
        ensures
            item_turn_resolved(self@, r),
    {
        let mut round = self;
        let ghost m = round@;
        round.game_modifiers.shotgun_sawn = false;
        proof {
            assert forall|k: int| 0 <= k < round@.seats.len() implies seat_ok(#[trigger] round@.seats[k], k, round@.max_health) by {
                assert(seat_ok(m.seats[k], k, m.max_health));
            }
        }
        round.new_loadout();
        let ghost mid = round@;
        let next_player = round.advance_turn();
        assert(turn_passed(mid, round@));
        TurnSummary {
            shot_result: None,
            round_continuation: RoundContinuation::RoundContinues(
                ContinuedRound { turn_continuation: TurnContinuation::LoadoutEnds(next_player), round },
            ),
        }
    }

    /// Settles the action a decision function returned (see `action_resolved`).
    pub fn resolve_action(taken: TakenAction<R>) -> (r: TurnSummary<R>)
        ensures
            action_resolved(taken, r),
            taken.spec_state().base_wf(),
            taken matches TakenAction::Terminal(t) ==> terminal_ok(t.spec_state(), t.spec_action()),
    {
        match taken {
            TakenAction::Continued(continued_turn) => {
                let round = continued_turn.next_action().into_round();
                TurnSummary {
                    shot_result: None,
                    round_continuation: RoundContinuation::RoundContinues(
                        ContinuedRound { turn_continuation: TurnContinuation::TurnOpen, round },
                    ),
                }
            },
            TakenAction::Terminal(taken_turn) => {
                let (action, round) = taken_turn.into_parts();
                match action {
                    TerminalAction::Item(_) => round.finish_item_turn(),
                    TerminalAction::Shot(target) => round.resolve_shot(target),
                }
            },
        }
    }

    /// Hands the active player's turn to `func` and settles the action it returns.
    pub fn with_turn<F>(self, func: F) -> (r: TurnSummary<R>)
        where
            F: FnOnce(Turn<R>) -> TakenAction<R>,
        requires
            self@.ready(),
            forall|t: Turn<R>| func.requires((t,)),
            acts_on_its_turn(func),
        ensures
            summary_ok(r, self@.number, self@.count),
            exists|t: Turn<R>, a: TakenAction<R>|
                t.spec_state() == self@ && #[trigger] func.ensures((t,), a) && action_resolved(a, r),
    {
        let ghost m = self@;
        let turn = Turn::new(self);
        let ghost t = turn;
        let taken = func(turn);
        assert(func.ensures((t,), taken));
        let r = Round::resolve_action(taken);
        proof {
            lemma_resolved_ok(taken, r);
        }
        r
    }

    /// Fires the next shell at `target` (see `after_shot`).
    fn fire_at(&mut self, target: PlayerNumber) -> (r: ShotgunDamage)
        requires
            old(self)@.base_wf(),
            old(self)@.shells.len() > 0,
            target.index() < old(self)@.seats.len(),
            old(self)@.seats[target.index() as int].player is Some,
        ensures
            final(self)@ == after_shot(old(self)@, target),
            final(self)@.base_wf(),
            r == damage_of(old(self)@.shells[0].0, old(self)@.modifiers.shotgun_sawn, shot_health(old(self)@, target)),
            alive_count(final(self)@.seats) + (if shot_health(old(self)@, target) == 0 { 1nat } else { 0nat })
                == alive_count(old(self)@.seats),
    {
        let ghost m = self@;
        let ghost a = after_shot(m, target);
        let was_sawn = self.game_modifiers.shotgun_sawn;
        self.game_modifiers.shotgun_sawn = false;
        let shell = self.shells.pop_front().unwrap();
        let target_index = target.seat_index();
        let mut seat = self.seats.remove(target_index);
        proof {
            assert(seat_ok(m.seats[target_index as int], target_index as int, m.max_health));
        }
        let damage = seat.receive_shot(shell, was_sawn);
        let killed = match damage {
            ShotgunDamage::RegularShot(k) | ShotgunDamage::SawedShot(k) => k,
            ShotgunDamage::Blank => false,
        };
        if killed {
            let first_dead = match self.first_dead_player {
                Some(p) => p,
                None => target,
            };
            self.first_dead_player = Some(first_dead);
            seat.empty_dead_body();
        }
        self.seats.insert(target_index, seat);
        proof {
            assert(self@.seats =~= a.seats);
            assert(self@.shells =~= a.shells);
            assert(self@ == a);
            lemma_alive_update(m.seats, target_index as int, seat@);
            lemma_global_keep(m.seats, target_index as int, seat@);
            assert forall|k: int| 0 <= k < self@.seats.len() implies seat_ok(#[trigger] self@.seats[k], k, self@.max_health) by {
                assert(seat_ok(m.seats[k], k, m.max_health));
            }
        }
        damage
    }

    /// After a shot that did not end the round: passes the turn when `advance` holds, and
    /// reloads an empty queue.
    fn pass_after_shot(&mut self, advance: bool, shooting_player: PlayerNumber) -> (r: TurnContinuation)
        requires
            old(self)@.base_wf(),
            alive_count(old(self)@.seats) >= 2,
            !advance ==> old(self)@.seats[old(self)@.active].player is Some,
            !advance ==> shooting_player == old(self)@.seats[old(self)@.active].number,
        ensures
            final(self)@.ready(),
            old(self)@.shells.len() > 0 ==> r == TurnContinuation::LoadoutContinues && if advance {
                turn_passed(old(self)@, final(self)@)
            } else {
                final(self)@ == old(self)@
            },
            old(self)@.shells.len() == 0 ==> r == TurnContinuation::LoadoutEnds(
                final(self)@.seats[final(self)@.active].number,
            ) && exists|mid: RoundModel|
                (if advance { turn_passed(old(self)@, mid) } else { mid == old(self)@ })
                    && #[trigger] reloaded(mid, final(self)@),
    {
        let new_loadout = self.shells.len() == 0;
        let next_player = if advance {
            self.advance_turn()
        } else {
            shooting_player
        };
        let ghost mid = self@;
        if new_loadout {
            self.new_loadout();
            assert(reloaded(mid, self@));
            TurnContinuation::LoadoutEnds(next_player)
        } else {
            TurnContinuation::LoadoutContinues
        }
    }

    /// Fires the next shell at `target` and settles what follows: the first death of the
    /// round is recorded, the round ends when one player is left, the turn passes unless the
    /// shooter survived a blank at themself, and an empty queue is reloaded.
    fn resolve_shot(self, target: PlayerNumber) -> (r: TurnSummary<R>)
        requires
            self@.base_wf(),
            alive_count(self@.seats) >= 2,
            self@.seats[self@.active].player is Some,
            self@.shells.len() > 0,
            target.index() < self@.seats.len(),
            self@.seats[target.index() as int].player is Some,
        ensures
            shot_resolved(self@, target, r),
    {
        let mut round = self;
        let ghost m = round@;
        let shooting_player = round.seats[round.active_seat_index].player_number();
        proof {
            assert(seat_ok(m.seats[m.active], m.active, m.max_health));
            assert(seat_ok(m.seats[target.index() as int], target.index() as int, m.max_health));
        }
        let damage = round.fire_at(target);
        let killed = match damage {
            ShotgunDamage::RegularShot(k) | ShotgunDamage::SawedShot(k) => k,
            ShotgunDamage::Blank => false,
        };
        let advance = match damage {
            ShotgunDamage::RegularShot(_) | ShotgunDamage::SawedShot(_) => true,
            ShotgunDamage::Blank => target != shooting_player,
        };
        let shot_result = Some(ShotResult { target_player: target, damage });
        if killed {
            if round.count_living() == 1 {
                let w = round.first_living_seat();
                let winner = round.seats[w].player_number();
                let first_dead = match round.first_dead_player {
                    Some(p) => p,
                    None => target,
                };
                proof {
                    assert(seat_ok(round@.seats[w as int], w as int, round@.max_health));
                }
                return TurnSummary {
                    shot_result,
                    round_continuation: RoundContinuation::RoundEnds(
                        FinishedRound { first_dead_player: first_dead, winner, round },
                    ),
                };
            }
        }
        let turn_continuation = round.pass_after_shot(advance, shooting_player);
        TurnSummary {
            shot_result,
            round_continuation: RoundContinuation::RoundContinues(ContinuedRound { turn_continuation, round }),
        }
    }
}

} // verus!
