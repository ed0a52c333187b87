use crate::player::Player;
use crate::player_number::PlayerNumber;
use crate::round_start_info::RoundStartInfo;
use vstd::prelude::*;

verus! {

/// Whether a jammed player still has to sit out turns.
#[derive(Debug, Clone, Copy, PartialEq, Eq, Structural)]
pub enum StunState {
    Unstunned,
    Stunned,
    Recovering,
}

/// Why a player could not be stunned.
#[derive(Debug, Clone, Copy, PartialEq, Eq, Structural)]
pub enum AlreadyStunnedError {
    AlreadyStunned,
    CantStunWhileRecovering,
}

impl AlreadyStunnedError {
    pub fn message(&self) -> (r: &'static str)
        ensures
            *self == AlreadyStunnedError::AlreadyStunned ==> r@ == "Player is already stunned"@,
    {
        match self {
            AlreadyStunnedError::AlreadyStunned => "Player is already stunned",
            AlreadyStunnedError::CantStunWhileRecovering => "Player can't be restunned while recovering",
        }
    }
}

/// The state of a stun after one scheduled turn has been considered.
pub open spec fn stun_after_turn(s: StunState) -> StunState {
    match s {
        StunState::Unstunned => StunState::Unstunned,
        StunState::Stunned => StunState::Recovering,
        StunState::Recovering => StunState::Unstunned,
    }
}

/// A player's health after one shot.
pub open spec fn health_after_shot(health: int, sawn: bool) -> int {
    let damage = if sawn { 2int } else { 1int };
    if health - damage < 0 { 0 } else { health - damage }
}

/// A player's health after healing, capped at the maximum.
pub open spec fn health_after_heal(health: int, amount: int, max_health: int) -> int {
    if health + amount > max_health { max_health } else { health + amount }
}

/// A player's state within one round.
#[derive(Debug, Clone)]
pub struct RoundPlayer {
    player_number: PlayerNumber,
    health: i32,
    max_health: i32,
    stun_state: StunState,
}

/// The abstract state of a `RoundPlayer`.
pub struct RoundPlayerView {
    pub number: PlayerNumber,
    pub health: int,
    pub max_health: int,
    pub stun: StunState,
}

impl View for RoundPlayer {
    type V = RoundPlayerView;

    closed spec fn view(&self) -> RoundPlayerView {
        RoundPlayerView {
            number: self.player_number,
            health: self.health as int,
            max_health: self.max_health as int,
            stun: self.stun_state,
        }
    }
}

impl RoundPlayer {
    /// Health never goes below zero nor above the round's maximum.
    pub open spec fn wf(&self) -> bool {
        0 <= self@.health <= self@.max_health
    }

    /// A player at full health and not stunned.
    pub fn new(player: &Player, round_start_info: &RoundStartInfo) -> (r: Self)
        requires
            round_start_info.spec_max_health() >= 0,
        ensures
            r.wf(),
            r@.number == player@.0,
            r@.health == round_start_info.spec_max_health(),
            r@.max_health == round_start_info.spec_max_health(),
            r@.stun == StunState::Unstunned,
    {
        let max_health = round_start_info.max_health();
        RoundPlayer {
            player_number: player.number(),
            health: max_health,
            max_health,
            stun_state: StunState::Unstunned,
        }
    }

    pub fn player_number(&self) -> (r: PlayerNumber)
        ensures
            r == self@.number,
    {
        self.player_number
    }

    pub fn health(&self) -> (r: i32)
        ensures
            r == self@.health,
    {
        self.health
    }

    pub fn max_health(&self) -> (r: i32)
        ensures
            r == self@.max_health,
    {
        self.max_health
    }

    pub fn stun_state(&self) -> (r: StunState)
        ensures
            r == self@.stun,
    {
        self.stun_state
    }

    /// Takes one point of damage, or two from a sawn shotgun, never going below zero.
    /// Returns whether the player is now dead.
    pub fn take_damage(&mut self, sawn: bool) -> (r: bool)
        requires
            old(self).wf(),
        ensures
            final(self).wf(),
            final(self)@ == (RoundPlayerView {
                health: health_after_shot(old(self)@.health, sawn),
                ..old(self)@
            }),
            r == (final(self)@.health == 0),
    {
        let damage: i32 = if sawn { 2 } else { 1 };
        if self.health < damage {
            self.health = 0;
        } else {
            self.health = self.health - damage;
        }
        self.health == 0
    }

    /// Heals by `amount`, never above the round's maximum health.
    pub fn gain_health(&mut self, amount: u8)
        requires
            old(self).wf(),
        ensures
            final(self).wf(),
            final(self)@ == (RoundPlayerView {
                health: health_after_heal(old(self)@.health, amount as int, old(self)@.max_health),
                ..old(self)@
            }),
    {
        if self.max_health - self.health < amount as i32 {
            self.health = self.max_health;
        } else {
            self.health = self.health + amount as i32;
        }
    }

    /// Stuns the player; only an unstunned player can be stunned.
    pub fn stun(&mut self) -> (r: Result<(), AlreadyStunnedError>)
        ensures
            old(self)@.stun == StunState::Unstunned <==> r is Ok,
            old(self)@.stun == StunState::Stunned ==> r == Err::<(), _>(
                AlreadyStunnedError::AlreadyStunned,
            ),
            old(self)@.stun == StunState::Recovering ==> r == Err::<(), _>(
                AlreadyStunnedError::CantStunWhileRecovering,
            ),
            r is Ok ==> final(self)@ == (RoundPlayerView { stun: StunState::Stunned, ..old(self)@ }),
            r is Err ==> final(self)@ == old(self)@,
    {
        match self.stun_state {
            StunState::Unstunned => {
                self.stun_state = StunState::Stunned;
                Ok(())
            },
            StunState::Stunned => Err(AlreadyStunnedError::AlreadyStunned),
            StunState::Recovering => Err(AlreadyStunnedError::CantStunWhileRecovering),
        }
    }

    /// Considers one scheduled turn of the player: a stunned player becomes recovering, a
    /// recovering one unstunned, and both sit the turn out. Returns whether the player may
    /// take the turn.
    pub fn update_stunned(&mut self) -> (r: bool)
        ensures
            r == (old(self)@.stun == StunState::Unstunned),
            final(self)@ == (RoundPlayerView { stun: stun_after_turn(old(self)@.stun), ..old(self)@ }),
    {
        match self.stun_state {
            StunState::Unstunned => true,
            StunState::Stunned => {
                self.stun_state = StunState::Recovering;
                false
            },
            StunState::Recovering => {
                self.stun_state = StunState::Unstunned;
                false
            },
        }
    }
}

} // verus!
