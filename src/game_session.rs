use crate::game_players::GamePlayers;
use crate::multiplayer_count::MultiplayerCount;
use crate::player_number::PlayerNumber;
use crate::random_source::RandomSource;
use crate::round::{
    action_resolved, acts_on_its_turn, FinishedRoundOrRng, Round, RoundContinuation, TurnContinuation, TurnSummary,
};
use crate::round_model::{fresh_player, fresh_shells, RoundModel};
use crate::round_number::RoundNumber;
use crate::turn::{TakenAction, Turn};
use vstd::prelude::*;

verus! {

/// A match of three rounds between the same players.
#[derive(Debug)]
pub struct GameSession<R> {
    round: Option<Round<R>>,
    players: GamePlayers,
}

/// An action was asked of a match whose last round is over.
#[derive(Debug, Clone, Copy, PartialEq, Eq, Structural)]
pub enum NoRoundError {
    NoRound,
}

impl NoRoundError {
    pub fn message(&self) -> (r: &'static str)
        ensures
            r@ == "No round is active"@,
    {
        "No round is active"
    }
}

/// Every win recorded lies before round `number`.
pub open spec fn wins_before(players: Seq<(PlayerNumber, Seq<RoundNumber>)>, number: nat) -> bool {
    forall|i: int, k: int|
        0 <= i < players.len() && 0 <= k < players[i].1.len() ==> (#[trigger] players[i].1[k]).value() < number
}

/// One call of `with_turn` on a match whose round was in play, given the summary `s` of the
/// action taken. A turn left open returns `None` and keeps the round; otherwise the summary
/// function's value is returned. A round that goes on is kept; a round that ends is won by
/// its winner, and the next round starts from it with its first dead player to move, unless
/// it was the third.
pub open spec fn session_step<R, TRet, SummaryF: FnOnce(&TurnSummary<R>) -> TRet>(
    before: GameSession<R>,
    s: TurnSummary<R>,
    summary_func: SummaryF,
    r: Result<Option<TRet>, NoRoundError>,
    after: GameSession<R>,
) -> bool {
    match s.round_continuation {
        RoundContinuation::RoundContinues(c) => {
            &&& after.spec_round() == Some(c.round@)
            &&& after.spec_players() == before.spec_players()
            &&& if c.turn_continuation == TurnContinuation::TurnOpen {
                r matches Ok(None)
            } else {
                r matches Ok(Some(v)) && summary_func.ensures((&s,), v)
            }
        },
        RoundContinuation::RoundEnds(f) => {
            let n = f.final_state().number;
            let w = f.spec_winner().index() as int;
            let ps = before.spec_players()@.0;
            &&& r matches Ok(Some(v)) && summary_func.ensures((&s,), v)
            &&& after.spec_players()@ == (ps.update(w, (ps[w].0, ps[w].1.push(n))), before.spec_players()@.1)
            &&& n == RoundNumber::Three ==> after.spec_round() is None
            &&& n != RoundNumber::Three ==> (after.spec_round() matches Some(m2) && {
                &&& m2.number.value() == n.value() + 1
                &&& m2.active == f.spec_first_dead().index()
                &&& m2.first_dead is None
                &&& fresh_shells(m2)
                &&& forall|i: int| 0 <= i < m2.seats.len() ==> (#[trigger] m2.seats[i]).player == Some(
                    fresh_player(PlayerNumber::at_index(i), m2.max_health),
                )
            })
        },
    }
}

impl<R> GameSession<R> {
    /// The round being played, if the match is not over.
    pub closed spec fn spec_round(&self) -> Option<RoundModel> {
        match self.round {
            Some(r) => Some(r@),
            None => None,
        }
    }

    /// The players of the match.
    pub closed spec fn spec_players(&self) -> GamePlayers {
        self.players
    }

    /// The players are well formed; a round in play is playable, has as many seats as there
    /// are players, and comes after every round already won; once the match is over, every
    /// recorded win is of one of its three rounds.
    pub open spec fn wf(&self) -> bool {
        &&& self.spec_players().wf()
        &&& match self.spec_round() {
            Some(m) => {
                &&& m.ready()
                &&& m.count == self.spec_players()@.1
                &&& wins_before(self.spec_players()@.0, m.number.value())
            },
            None => wins_before(self.spec_players()@.0, 4),
        }
    }

    /// The round being played, if the match is not over.
    pub fn round(&self) -> (r: Option<&Round<R>>)
        ensures
            r is None <==> self.spec_round() is None,
            r is Some ==> self.spec_round() == Some(r->0@),
    {
        match &self.round {
            Some(round) => Some(round),
            None => None,
        }
    }

    pub fn players(&self) -> (r: &GamePlayers)
        ensures
            *r == self.spec_players(),
    {
        &self.players
    }
}

impl<R: RandomSource> GameSession<R> {
    /// A match of `multiplayer_count` players, in its first round.
    pub fn new(multiplayer_count: MultiplayerCount, rng: R) -> (r: Self)
        ensures
            r.wf(),
            r.spec_players()@.1 == multiplayer_count,
            r.spec_round() matches Some(m) && {
                &&& m.number == RoundNumber::One
                &&& m.active == 0
                &&& m.first_dead is None
                &&& fresh_shells(m)
                &&& forall|i: int| 0 <= i < m.seats.len() ==> (#[trigger] m.seats[i]).player == Some(
                    fresh_player(PlayerNumber::at_index(i), m.max_health),
                )
            },
            forall|i: int| 0 <= i < r.spec_players()@.0.len() ==> (#[trigger] r.spec_players()@.0[i]).1.len() == 0,
    {
        let players = GamePlayers::new(multiplayer_count);
        let round = Round::new(&players, FinishedRoundOrRng::Rng(rng));
        GameSession { players, round: Some(round) }
    }

    /// Plays one action of the active player through `turn_func`. When the action ends the
    /// turn, `summary_func` sees what happened and its value is returned; when the turn stays
    /// open the result is `None`. A round that ends is won by its last player; the next round
    /// starts from it, and after the third the match is over. Fails when the match is over.
    pub fn with_turn<TurnF, SummaryF, TRet>(&mut self, turn_func: TurnF, summary_func: SummaryF) -> (r:
        Result<Option<TRet>, NoRoundError>)
        where
            TurnF: FnOnce(Turn<R>) -> TakenAction<R>,
            SummaryF: FnOnce(&TurnSummary<R>) -> TRet,
        requires
            old(self).wf(),
            forall|t: Turn<R>| turn_func.requires((t,)),
            acts_on_its_turn(turn_func),
            forall|s: &TurnSummary<R>| summary_func.requires((s,)),
        ensures
            final(self).wf(),
            r is Err <==> old(self).spec_round() is None,
            old(self).spec_round() is None ==> *final(self) == *old(self),
            final(self).spec_players()@.1 == old(self).spec_players()@.1,
            old(self).spec_round() matches Some(m) ==> match final(self).spec_round() {
                Some(m2) => m2.number == m.number || m2.number.value() == m.number.value() + 1,
                None => m.number == RoundNumber::Three,
            },
            old(self).spec_round() matches Some(m) ==> {
                let before = old(self).spec_players()@.0;
                let after = final(self).spec_players()@.0;
                if final(self).spec_round() is Some && final(self).spec_round()->0.number == m.number {
                    after == before
                } else {
                    exists|w: int|
                        0 <= w < before.len() && after == before.update(w, (before[w].0, before[w].1.push(m.number)))
                }
            },
            old(self).spec_round() matches Some(m) ==> exists|t: Turn<R>, a: TakenAction<R>, s: TurnSummary<R>|
                #![trigger turn_func.ensures((t,), a), action_resolved(a, s)]
                t.spec_state() == m && turn_func.ensures((t,), a) && action_resolved(a, s)
                    && session_step(*old(self), s, summary_func, r, *final(self)),
    {
        let current = self.round.take();
        match current {
            None => Err(NoRoundError::NoRound),
            Some(round) => {
                let ghost m = round@;
                let summary = round.with_turn(turn_func);
                let ghost ta = choose|t: Turn<R>, a: TakenAction<R>|
                    t.spec_state() == m && #[trigger] turn_func.ensures((t,), a) && action_resolved(a, summary);
                let ghost s = summary;
                let is_open = match &summary.round_continuation {
                    RoundContinuation::RoundContinues(continued) => continued.turn_continuation
                        == TurnContinuation::TurnOpen,
                    RoundContinuation::RoundEnds(_) => false,
                };
                if is_open {
                    let TurnSummary { shot_result: _, round_continuation } = summary;
                    match round_continuation {
                        RoundContinuation::RoundContinues(continued) => {
                            self.round = Some(continued.round);
                        },
                        RoundContinuation::RoundEnds(_) => {},
                    }
                    assert(session_step(*old(self), s, summary_func, Ok(None), *self));
                    return Ok(None);
                }
                let result = summary_func(&summary);
                let TurnSummary { shot_result: _, round_continuation } = summary;
                match round_continuation {
                    RoundContinuation::RoundContinues(continued) => {
                        self.round = Some(continued.round);
                    },
                    RoundContinuation::RoundEnds(finished_round) => {
                        let finished_round_number = finished_round.number();
                        let winner = finished_round.winner();
                        proof {
                            assert(!self.players@.0[winner.index() as int].1.contains(finished_round_number)) by {
                                if self.players@.0[winner.index() as int].1.contains(finished_round_number) {
                                    let k = choose|k: int| 0 <= k < self.players@.0[winner.index() as int].1.len()
                                        && self.players@.0[winner.index() as int].1[k] == finished_round_number;
                                    assert(self.players@.0[winner.index() as int].1[k].value() < m.number.value());
                                }
                            }
                        }
                        let ghost before = self.players@.0;
                        let registered = self.players.register_win(winner, finished_round_number);
                        proof {
                            let w = winner.index() as int;
                            assert(registered is Ok);
                            assert(self.players@.0 == before.update(w, (before[w].0, before[w].1.push(m.number))));
                        }
                        proof {
                            assert forall|i: int, k: int|
                                0 <= i < self.players@.0.len() && 0 <= k < self.players@.0[i].1.len()
                                implies (#[trigger] self.players@.0[i].1[k]).value() < m.number.value() + 1 by {
                                if i != winner.index() || k < old(self).players@.0[i].1.len() {
                                    assert(old(self).players@.0[i].1[k].value() < m.number.value());
                                }
                            }
                        }
                        match finished_round_number {
                            RoundNumber::One | RoundNumber::Two => {
                                self.round = Some(
                                    Round::new(&self.players, FinishedRoundOrRng::FinishedRound(finished_round)),
                                );
                            },
                            RoundNumber::Three => {
                                self.round = None;
                            },
                        }
                    },
                }
                assert(session_step(*old(self), s, summary_func, Ok(Some(result)), *self));
                Ok(Some(result))
            },
        }
    }
}

} // verus!
