use crate::item::{Item, NotAdreneline, UnaryItem};
use crate::player_number::PlayerNumber;
use crate::round::Round;
use crate::round_model::{
    adreneline_jammer_use, adreneline_use, alive_count, jammer_use, unary_use, RoundModel,
};
use crate::round_player::{RoundPlayer, StunState};
use crate::random_source::RandomSource;
use crate::seat::SeatView;
use crate::shell::ShellType;
use vstd::prelude::*;

verus! {

/// An action that ends the player's turn.
#[derive(Debug, Clone, Copy, PartialEq, Eq, Structural)]
pub enum TerminalAction {
    Item(ItemUseResult),
    Shot(PlayerNumber),
}

/// A shell whose type an item revealed; `relative_index` counts from the next shell to fire.
#[derive(Debug, Clone, Copy, PartialEq, Eq, Structural)]
pub struct LearnedShell {
    pub relative_index: usize,
    pub shell_type: ShellType,
}

/// What Beer ejected, and whether the queue is now empty.
#[derive(Debug, Clone, Copy, PartialEq, Eq, Structural)]
pub struct ShotgunRackResult {
    pub empty: bool,
    pub ejected_shell_type: ShellType,
}

/// The outcome of a successful item use.
#[derive(Debug, Clone, Copy, PartialEq, Eq, Structural)]
pub enum ItemUseResult {
    Default,
    ShotgunRacked(ShotgunRackResult),
    LearnedShell(LearnedShell),
    StunnedPlayer(PlayerNumber),
}

/// Why an item could not be used; the round is left unchanged.
#[derive(Debug, Clone, Copy, PartialEq, Eq, Structural)]
pub enum InvalidItemUseError {
    NoItem,
    BadAdrenelineTarget,
    DoubleSaw,
    DoubleStun,
    InvalidStunTarget,
}

impl InvalidItemUseError {
    pub fn message(&self) -> (r: &'static str)
        ensures
            *self == InvalidItemUseError::DoubleSaw ==> r@ == "Shotgun is already sawn"@,
    {
        match self {
            InvalidItemUseError::NoItem => "The item is not present in the player's inventory",
            InvalidItemUseError::BadAdrenelineTarget => "Cannot use adreneline due to being provided a target that doesn't exist, is the current player, or does not have the NotAdreneline item",
            InvalidItemUseError::DoubleSaw => "Shotgun is already sawn",
            InvalidItemUseError::DoubleStun => "Player is recovering from previous stun and cannot be restunned",
            InvalidItemUseError::InvalidStunTarget => "Player targeted by stun is dead, non-existent, or self",
        }
    }
}

impl ItemUseResult {
    /// Whether the item use ends the turn: only Beer that empties the queue does.
    pub open spec fn spec_is_terminal(self) -> bool {
        match self {
            ItemUseResult::ShotgunRacked(rack_result) => rack_result.empty,
            _ => false,
        }
    }

    pub fn is_terminal(&self) -> (r: bool)
        ensures
            r == self.spec_is_terminal(),
    {
        match self {
            ItemUseResult::ShotgunRacked(rack_result) => rack_result.empty,
            ItemUseResult::Default
            | ItemUseResult::LearnedShell(_)
            | ItemUseResult::StunnedPlayer(_) => false,
        }
    }
}

/// The active player's turn: exclusive use of the active seat, a view of the others, and the
/// shell queue. Each action consumes it.
#[derive(Debug)]
pub struct Turn<R> {
    round: Round<R>,
}

/// A turn that goes on after an item use, with that use's result.
#[derive(Debug)]
pub struct ContinuedTurn<R> {
    turn: Turn<R>,
    item_result: Result<ItemUseResult, InvalidItemUseError>,
}

/// A turn that ended, by a shot or by an item.
#[derive(Debug)]
pub struct TakenTurn<R> {
    action: TerminalAction,
    round: Round<R>,
}

/// What an action leaves: a turn that goes on, or one that ended.
#[derive(Debug)]
pub enum TakenAction<R> {
    Continued(ContinuedTurn<R>),
    Terminal(TakenTurn<R>),
}

/// Whether a round may end a turn by `action`: a shot needs a loaded shell and a living
/// target; an item ends a turn only when Beer emptied the queue.
pub open spec fn terminal_ok(m: RoundModel, action: TerminalAction) -> bool {
    &&& m.base_wf()
    &&& alive_count(m.seats) >= 2
    &&& m.seats[m.active].player is Some
    &&& match action {
        TerminalAction::Shot(t) => {
            &&& m.shells.len() > 0
            &&& t.index() < m.seats.len()
            &&& m.seats[t.index() as int].player is Some
        },
        TerminalAction::Item(res) => res.spec_is_terminal() && m.shells.len() == 0,
    }
}

impl<R> Turn<R> {
    #[verifier::type_invariant]
    spec fn inv(self) -> bool {
        self.round@.ready()
    }

    /// The round as the turn sees it.
    pub closed spec fn spec_state(&self) -> RoundModel {
        self.round@
    }

    /// The turn of the active player of a playable round.
    pub fn new(round: Round<R>) -> (r: Turn<R>)
        requires
            round@.ready(),
        ensures
            r.spec_state() == round@,
    {
        Turn { round }
    }

    /// Gives the round back.
    pub(crate) fn into_round(self) -> (r: Round<R>)
        ensures
            r@ == self.spec_state(),
            r@.ready(),
    {
        proof {
            use_type_invariant(&self);
        }
        self.round
    }

    /// How many shells are loaded.
    pub fn shell_count(&self) -> (r: usize)
        ensures
            r == self.spec_state().shells.len(),
    {
        self.round.shells().len()
    }

    /// The active player's items.
    pub fn items(&self) -> (r: &Vec<Item>)
        ensures
            r@ == self.spec_state().seats[self.spec_state().active].items,
    {
        proof {
            use_type_invariant(self);
        }
        self.round.active_items()
    }

    /// The other seats, in seat order.
    pub fn other_seats(&self) -> (r: Vec<SeatView>)
        ensures
            r@.len() == self.spec_state().seats.len() - 1,
            forall|i: int| 0 <= i < r@.len() ==> {
                let m = self.spec_state();
                let k = if i < m.active { i } else { i + 1 };
                &&& (#[trigger] r@[i]).player_number == m.seats[k].number
                &&& r@[i].items@ == m.seats[k].items
                &&& r@[i].stun_state == (match m.seats[k].player {
                    Some(p) => Some(p.stun),
                    None => None::<StunState>,
                })
            },
    {
        proof {
            use_type_invariant(self);
        }
        self.round.other_seat_views()
    }

    /// The active player.
    pub fn player(&self) -> (r: &RoundPlayer)
        ensures
            r@ == self.spec_state().seats[self.spec_state().active].player->0,
    {
        proof {
            use_type_invariant(self);
        }
        self.round.active_player()
    }

    pub fn turn_order_inverted(&self) -> (r: bool)
        ensures
            r == self.spec_state().modifiers.turn_order_inverted,
    {
        self.round.game_modifiers().turn_order_inverted
    }

    pub fn sawn(&self) -> (r: bool)
        ensures
            r == self.spec_state().modifiers.shotgun_sawn,
    {
        self.round.game_modifiers().shotgun_sawn
    }

    /// Fires at `target`, which must be a living player; this ends the turn.
    pub fn shoot(self, target: PlayerNumber) -> (r: TakenAction<R>)
        requires
            target.index() < self.spec_state().seats.len(),
            self.spec_state().seats[target.index() as int].player is Some,
        ensures
            r matches TakenAction::Terminal(t) && t.spec_action() == TerminalAction::Shot(target)
                && t.spec_state() == self.spec_state(),
    {
        let round = self.into_round();
        TakenAction::Terminal(TakenTurn { action: TerminalAction::Shot(target), round })
    }

}

impl<R: RandomSource> Turn<R> {
    /// Uses a unary item of the active player.
    pub fn use_unary_item(self, unary_item: UnaryItem) -> (r: TakenAction<R>)
        ensures
            unary_use(self.spec_state(), self.spec_state().active, unary_item, r.item_result(), r.spec_state()),
            r.ends_turn_on_item(),
    {
        let mut round = self.into_round();
        let active = round.active_index();
        let result = round.use_unary_item(active, unary_item);
        convert_to_taken_action(round, result)
    }

    /// Uses Adrenaline to steal `target_item` from `target_player` and use it at once.
    pub fn use_adreneline(self, target_player: PlayerNumber, target_item: UnaryItem) -> (r: TakenAction<R>)
        ensures
            adreneline_use(self.spec_state(), target_player, target_item, r.item_result(), r.spec_state()),
            r.ends_turn_on_item(),
    {
        let mut round = self.into_round();
        let result = round.use_adreneline(target_player, target_item);
        convert_to_taken_action(round, result)
    }

    /// Uses the Jammer on `target_player`.
    pub fn use_jammer(self, target_player: PlayerNumber) -> (r: TakenAction<R>)
        ensures
            jammer_use(self.spec_state(), target_player, r.item_result(), r.spec_state()),
            r.ends_turn_on_item(),
    {
        let mut round = self.into_round();
        let result = round.use_jammer(target_player);
        convert_to_taken_action(round, result)
    }

    /// Uses Adrenaline to steal the Jammer of `theive_from` and jams `jam_target` with it.
    pub fn use_adreneline_then_jammer(self, theive_from: PlayerNumber, jam_target: PlayerNumber) -> (r: TakenAction<R>)
        ensures
            adreneline_jammer_use(self.spec_state(), theive_from, jam_target, r.item_result(), r.spec_state()),
            r.ends_turn_on_item(),
    {
        let mut round = self.into_round();
        let result = round.use_adreneline_then_jammer(theive_from, jam_target);
        convert_to_taken_action(round, result)
    }
}

/// Ends the turn when the item use emptied the shell queue, and lets it go on otherwise.
fn convert_to_taken_action<R>(round: Round<R>, item_result: Result<ItemUseResult, InvalidItemUseError>) -> (r: TakenAction<R>)
    requires
        round@.base_wf(),
        alive_count(round@.seats) >= 2,
        round@.seats[round@.active].player is Some,
        round@.shells.len() == 0 <==> (item_result is Ok && item_result->Ok_0.spec_is_terminal()),
    ensures
        r.spec_state() == round@,
        r.item_result() == item_result,
        r.ends_turn_on_item(),
{
    match item_result {
        Ok(item_use_result) => {
            if item_use_result.is_terminal() {
                return TakenAction::Terminal(TakenTurn { action: TerminalAction::Item(item_use_result), round });
            }
        },
        Err(_) => {},
    }
    TakenAction::Continued(ContinuedTurn { turn: Turn { round }, item_result })
}

impl<R> ContinuedTurn<R> {
    pub closed spec fn spec_state(&self) -> RoundModel {
        self.turn.spec_state()
    }

    pub closed spec fn spec_item_result(&self) -> Result<ItemUseResult, InvalidItemUseError> {
        self.item_result
    }

    /// The result of the item use that let the turn go on.
    pub fn item_result(&self) -> (r: &Result<ItemUseResult, InvalidItemUseError>)
        ensures
            *r == self.spec_item_result(),
    {
        &self.item_result
    }

    /// The turn, for the next action.
    pub fn next_action(self) -> (r: Turn<R>)
        ensures
            r.spec_state() == self.spec_state(),
    {
        self.turn
    }
}

impl<R> TakenTurn<R> {
    #[verifier::type_invariant]
    spec fn inv(self) -> bool {
        terminal_ok(self.round@, self.action)
    }

    pub closed spec fn spec_state(&self) -> RoundModel {
        self.round@
    }

    pub closed spec fn spec_action(&self) -> TerminalAction {
        self.action
    }

    /// How the turn ended.
    pub fn action(&self) -> (r: TerminalAction)
        ensures
            r == self.spec_action(),
    {
        self.action
    }

    /// Whether the shotgun was sawn when the turn ended.
    pub fn sawn(&self) -> (r: bool)
        ensures
            r == self.spec_state().modifiers.shotgun_sawn,
    {
        self.round.game_modifiers().shotgun_sawn
    }

    /// Whether the turn order was inverted when the turn ended.
    pub fn turn_order_inverted(&self) -> (r: bool)
        ensures
            r == self.spec_state().modifiers.turn_order_inverted,
    {
        self.round.game_modifiers().turn_order_inverted
    }

    /// Takes the turn apart into how it ended and the round.
    pub(crate) fn into_parts(self) -> (r: (TerminalAction, Round<R>))
        ensures
            r.0 == self.spec_action(),
            r.1@ == self.spec_state(),
            terminal_ok(r.1@, r.0),
    {
        proof {
            use_type_invariant(&self);
        }
        (self.action, self.round)
    }
}

impl<R> TakenAction<R> {
    /// The round after the action.
    pub open spec fn spec_state(&self) -> RoundModel {
        match self {
            TakenAction::Continued(c) => c.spec_state(),
            TakenAction::Terminal(t) => t.spec_state(),
        }
    }

    /// The result of the item use this action made (a shot made none, and reads as `NoItem`).
    pub open spec fn item_result(&self) -> Result<ItemUseResult, InvalidItemUseError> {
        match self {
            TakenAction::Continued(c) => c.spec_item_result(),
            TakenAction::Terminal(t) => match t.spec_action() {
                TerminalAction::Item(res) => Ok(res),
                TerminalAction::Shot(_) => Err(InvalidItemUseError::NoItem),
            },
        }
    }

    /// An item use ends the turn exactly when it is terminal (Beer that emptied the queue).
    pub open spec fn ends_turn_on_item(&self) -> bool {
        &&& self is Terminal <==> (self.item_result() is Ok && self.item_result()->Ok_0.spec_is_terminal())
        &&& self matches TakenAction::Terminal(t) ==> t.spec_action() is Item
    }
}

} // verus!
