use crate::item::{
    count_of, global_limit, lemma_count_le_len, unary, within_player_limits, Item, NotAdreneline,
    UnaryItem,
};
use crate::loadout::{min_new_items, sequence_table, top_new_items};
use crate::multiplayer_count::MultiplayerCount;
use crate::player_number::PlayerNumber;
use crate::round::GameModifiers;
use crate::round_number::RoundNumber;
use crate::round_player::{
    health_after_heal, health_after_shot, stun_after_turn, RoundPlayerView, StunState,
};
use crate::round_start_info::{min_health, top_health};
use crate::seat::{damage_of, SeatModel, MAX_ITEMS};
use crate::shell::{flipped, Shell, ShellType, ShotgunDamage};
use crate::turn::{InvalidItemUseError, ItemUseResult, LearnedShell, ShotgunRackResult};
use vstd::prelude::*;

verus! {

/// The abstract state of a round.
pub struct RoundModel {
    pub number: RoundNumber,
    pub seats: Seq<SeatModel>,
    pub modifiers: GameModifiers,
    pub active: int,
    pub first_dead: Option<PlayerNumber>,
    pub max_health: int,
    pub count: MultiplayerCount,
    pub shells: Seq<Shell>,
}

/// How many seats still hold a living player.
pub open spec fn alive_count(seats: Seq<SeatModel>) -> nat
    decreases seats.len(),
{
    if seats.len() == 0 {
        0
    } else {
        alive_count(seats.drop_last()) + if seats.last().player is Some {
            1nat
        } else {
            0nat
        }
    }
}

/// The seats whose player is alive, in seat order.
pub open spec fn living_seats(seats: Seq<SeatModel>) -> Seq<SeatModel>
    decreases seats.len(),
{
    if seats.len() == 0 {
        Seq::empty()
    } else {
        let rest = living_seats(seats.drop_last());
        if seats.last().player is Some {
            rest.push(seats.last())
        } else {
            rest
        }
    }
}

/// How many items of kind `it` the seats hold in all.
pub open spec fn table_total(seats: Seq<SeatModel>, it: Item) -> nat
    decreases seats.len(),
{
    if seats.len() == 0 {
        0
    } else {
        table_total(seats.drop_last(), it) + count_of(seats.last().items, it)
    }
}

/// No kind of item is on the table more often than its table-wide cap allows.
#[verifier::opaque]
pub open spec fn within_global_limits(seats: Seq<SeatModel>) -> bool {
    forall|it: Item| #[trigger] table_total(seats, it) <= global_limit(it)
}

/// Changing the items of one seat changes the table total by the change in that seat.
pub proof fn lemma_total_update(seats: Seq<SeatModel>, i: int, s: SeatModel, it: Item)
    requires
        0 <= i < seats.len(),
    ensures
        table_total(seats.update(i, s), it) + count_of(seats[i].items, it) == table_total(seats, it)
            + count_of(s.items, it),
    decreases seats.len(),
{
    if i == seats.len() - 1 {
        assert(seats.update(i, s).drop_last() =~= seats.drop_last());
    } else {
        lemma_total_update(seats.drop_last(), i, s, it);
        assert(seats.update(i, s).drop_last() =~= seats.drop_last().update(i, s));
    }
}

/// A seat that holds no more of any item than before keeps the table within its caps.
pub proof fn lemma_global_keep(seats: Seq<SeatModel>, i: int, s: SeatModel)
    requires
        0 <= i < seats.len(),
        within_global_limits(seats),
        forall|it: Item| #[trigger] count_of(s.items, it) <= count_of(seats[i].items, it),
    ensures
        within_global_limits(seats.update(i, s)),
{
    reveal(within_global_limits);
    assert forall|it: Item| #[trigger] table_total(seats.update(i, s), it) <= global_limit(it) by {
        lemma_total_update(seats, i, s, it);
        assert(count_of(s.items, it) <= count_of(seats[i].items, it));
    }
}

/// Seats without items hold nothing of any kind.
pub proof fn lemma_total_empty(seats: Seq<SeatModel>)
    requires
        forall|i: int| 0 <= i < seats.len() ==> (#[trigger] seats[i]).items.len() == 0,
    ensures
        within_global_limits(seats),
{
    reveal(within_global_limits);
    assert forall|it: Item| #[trigger] table_total(seats, it) <= global_limit(it) by {
        lemma_total_zero(seats, it);
    }
}

/// Seats without items hold nothing of a kind.
proof fn lemma_total_zero(seats: Seq<SeatModel>, it: Item)
    requires
        forall|i: int| 0 <= i < seats.len() ==> (#[trigger] seats[i]).items.len() == 0,
    ensures
        table_total(seats, it) == 0,
    decreases seats.len(),
{
    if seats.len() > 0 {
        lemma_total_zero(seats.drop_last(), it);
        assert(seats.last().items.len() == 0);
    }
}

/// The size an inventory of `before` items reaches after `passes` passes that hand it one item
/// each, stopping at eight.
pub open spec fn dealt_size(before: nat, passes: nat) -> nat {
    if before + passes > MAX_ITEMS {
        MAX_ITEMS as nat
    } else {
        before + passes
    }
}

/// Every living seat of `before` grew by `n` items in `after`, stopping at eight; the others
/// kept theirs.
pub open spec fn dealt_sizes(before: Seq<SeatModel>, after: Seq<SeatModel>, n: nat) -> bool {
    forall|s: int| 0 <= s < after.len() ==> (#[trigger] after[s]).items.len() == if before[s].player is Some {
        dealt_size(before[s].items.len(), n)
    } else {
        before[s].items.len()
    }
}

/// The round after a new loadout was dealt into it: fresh shells, and every living seat
/// handed the same number of new items, drawn within the range for the player count and
/// stopping at eight; nothing else changes.
pub open spec fn reloaded(before: RoundModel, after: RoundModel) -> bool {
    &&& after == (RoundModel { seats: after.seats, shells: after.shells, ..before })
    &&& after.seats.len() == before.seats.len()
    &&& forall|i: int| 0 <= i < after.seats.len() ==> {
        &&& (#[trigger] after.seats[i]).number == before.seats[i].number
        &&& after.seats[i].player == before.seats[i].player
    }
    &&& fresh_shells(after)
    &&& alive_count(after.seats) == alive_count(before.seats)
    &&& exists|n: nat|
        min_new_items(before.count) <= n <= top_new_items(before.count)
            && #[trigger] dealt_sizes(before.seats, after.seats, n)
    &&& forall|i: int| 0 <= i < after.seats.len() ==> items_extended(
        before.seats[i].items,
        (#[trigger] after.seats[i]).items,
        alive_count(before.seats) <= 2,
    )
}

/// `after` is `before` with items appended, none of them a Remote when `no_remote`.
pub open spec fn items_extended(before: Seq<Item>, after: Seq<Item>, no_remote: bool) -> bool {
    &&& before.len() <= after.len()
    &&& after.subrange(0, before.len() as int) == before
    &&& no_remote ==> forall|j: int| before.len() <= j < after.len() ==> after[j] != unary(UnaryItem::Remote)
}

/// Every seat holds `n` items.
pub open spec fn uniform_items(seats: Seq<SeatModel>, n: nat) -> bool {
    forall|s: int| 0 <= s < seats.len() ==> (#[trigger] seats[s]).items.len() == n
}

/// How many items the seats hold in all.
pub open spec fn items_total(seats: Seq<SeatModel>) -> nat
    decreases seats.len(),
{
    if seats.len() == 0 {
        0
    } else {
        items_total(seats.drop_last()) + seats.last().items.len()
    }
}

/// The table holds no more of one kind than it holds items.
pub proof fn lemma_total_le_items(seats: Seq<SeatModel>, it: Item)
    ensures
        table_total(seats, it) <= items_total(seats),
    decreases seats.len(),
{
    if seats.len() > 0 {
        lemma_total_le_items(seats.drop_last(), it);
        lemma_count_le_len(seats.last().items, it);
    }
}

/// Seats of at most eight items, one of them with fewer, hold fewer than eight per seat.
pub proof fn lemma_items_total_below(seats: Seq<SeatModel>, i: int)
    requires
        0 <= i < seats.len(),
        forall|s: int| 0 <= s < seats.len() ==> (#[trigger] seats[s]).items.len() <= MAX_ITEMS,
        seats[i].items.len() < MAX_ITEMS,
    ensures
        items_total(seats) < MAX_ITEMS * seats.len(),
    decreases seats.len(),
{
    lemma_items_total_le(seats.drop_last());
    if i < seats.len() - 1 {
        lemma_items_total_below(seats.drop_last(), i);
    }
}

/// Seats of at most eight items hold at most eight per seat.
proof fn lemma_items_total_le(seats: Seq<SeatModel>)
    requires
        forall|s: int| 0 <= s < seats.len() ==> (#[trigger] seats[s]).items.len() <= MAX_ITEMS,
    ensures
        items_total(seats) <= MAX_ITEMS * seats.len(),
    decreases seats.len(),
{
    if seats.len() > 0 {
        lemma_items_total_le(seats.drop_last());
    }
}

/// How many shells of type `t` are in `shells`.
pub open spec fn shell_count_of(shells: Seq<Shell>, t: ShellType) -> nat
    decreases shells.len(),
{
    if shells.len() == 0 {
        0
    } else {
        shell_count_of(shells.drop_last(), t) + if shells.last().0 == t {
            1nat
        } else {
            0nat
        }
    }
}

/// Whether seat `i` of a round is consistent: it keeps the number of its position, holds at
/// most eight items and no more of a kind than one player may hold, and a living occupant has
/// that number and health between one and the round's maximum.
pub open spec fn seat_ok(s: SeatModel, i: int, max_health: int) -> bool {
    &&& s.number == PlayerNumber::at_index(i)
    &&& s.items.len() <= MAX_ITEMS
    &&& within_player_limits(s.items)
    &&& s.player is Some ==> {
        &&& s.player->0.number == s.number
        &&& s.player->0.max_health == max_health
        &&& 0 < s.player->0.health <= max_health
    }
}

/// The seat a step away from `i` in turn order (backwards when the order is inverted).
pub open spec fn next_index(i: int, len: int, inverted: bool) -> int {
    if inverted {
        if i == 0 { len - 1 } else { i - 1 }
    } else {
        if i == len - 1 { 0 } else { i + 1 }
    }
}

/// How many steps in turn order lead from seat `i` to seat `j` (a full lap when `i == j`).
pub open spec fn steps_to(i: int, j: int, len: int, inverted: bool) -> int {
    if inverted {
        if i > j { i - j } else { i + len - j }
    } else {
        if j > i { j - i } else { j + len - i }
    }
}

/// Sum over living players of the turns they still have to sit out.
pub open spec fn stun_weight(seats: Seq<SeatModel>) -> nat
    decreases seats.len(),
{
    if seats.len() == 0 {
        0
    } else {
        stun_weight(seats.drop_last()) + match seats.last().player {
            Some(p) => match p.stun {
                StunState::Unstunned => 0nat,
                StunState::Stunned => 2nat,
                StunState::Recovering => 1nat,
            },
            None => 0nat,
        }
    }
}

impl RoundModel {
    /// The invariant of every round: one consistent seat per player, a valid active seat, the
    /// round's maximum health in range, the table within every item's table-wide cap, and a
    /// first dead player exactly when a seat is empty.
    pub open spec fn base_wf(self) -> bool {
        &&& self.seats.len() == self.count.count()
        &&& forall|i: int| 0 <= i < self.seats.len() ==> seat_ok(#[trigger] self.seats[i], i, self.max_health)
        &&& 0 <= self.active < self.seats.len()
        &&& min_health(self.count) <= self.max_health <= top_health(self.count)
        &&& within_global_limits(self.seats)
        &&& self.first_dead is None ==> alive_count(self.seats) == self.seats.len()
        &&& self.first_dead is Some ==> {
            &&& self.first_dead->0.index() < self.seats.len()
            &&& self.seats[self.first_dead->0.index() as int].player is None
        }
    }

    /// A round that accepts an action: shells loaded, the active seat occupied, and at least
    /// two living players.
    pub open spec fn ready(self) -> bool {
        &&& self.base_wf()
        &&& self.shells.len() > 0
        &&& self.seats[self.active].player is Some
        &&& alive_count(self.seats) >= 2
    }

    /// The round with the items of seat `i` replaced.
    pub open spec fn with_items(self, i: int, items: Seq<Item>) -> RoundModel {
        RoundModel { seats: self.seats.update(i, SeatModel { items, ..self.seats[i] }), ..self }
    }

    /// The round with the player of seat `i` replaced.
    pub open spec fn with_player(self, i: int, p: RoundPlayerView) -> RoundModel {
        RoundModel { seats: self.seats.update(i, SeatModel { player: Some(p), ..self.seats[i] }), ..self }
    }
}

/// Changing one seat changes the count of living players by the change in its occupancy.
pub proof fn lemma_alive_update(seats: Seq<SeatModel>, i: int, s: SeatModel)
    requires
        0 <= i < seats.len(),
    ensures
        alive_count(seats.update(i, s)) + (if seats[i].player is Some { 1nat } else { 0nat })
            == alive_count(seats) + (if s.player is Some { 1nat } else { 0nat }),
    decreases seats.len(),
{
    if i == seats.len() - 1 {
        assert(seats.update(i, s).drop_last() =~= seats.drop_last());
    } else {
        lemma_alive_update(seats.drop_last(), i, s);
        assert(seats.update(i, s).drop_last() =~= seats.drop_last().update(i, s));
    }
}

/// With every seat occupied, the count of the living is the number of seats.
pub proof fn lemma_alive_all(seats: Seq<SeatModel>)
    requires
        forall|i: int| 0 <= i < seats.len() ==> (#[trigger] seats[i]).player is Some,
    ensures
        alive_count(seats) == seats.len(),
    decreases seats.len(),
{
    if seats.len() > 0 {
        lemma_alive_all(seats.drop_last());
    }
}

/// Appending a shell raises the count of its type by one.
pub proof fn lemma_shell_push(shells: Seq<Shell>, s: Shell, t: ShellType)
    ensures
        shell_count_of(shells.push(s), t) == shell_count_of(shells, t) + if s.0 == t {
            1nat
        } else {
            0nat
        },
{
    assert(shells.push(s).drop_last() =~= shells);
}

/// Changing the stun state of one seat changes the stun weight by the change in that seat.
pub proof fn lemma_weight_update(seats: Seq<SeatModel>, i: int, s: SeatModel)
    requires
        0 <= i < seats.len(),
    ensures
        stun_weight(seats.update(i, s)) + stun_weight(seq![seats[i]]) == stun_weight(seats)
            + stun_weight(seq![s]),
    decreases seats.len(),
{
    assert(seq![seats[i]].drop_last() =~= Seq::<SeatModel>::empty());
    assert(seq![s].drop_last() =~= Seq::<SeatModel>::empty());
    if i == seats.len() - 1 {
        assert(seats.update(i, s).drop_last() =~= seats.drop_last());
    } else {
        lemma_weight_update(seats.drop_last(), i, s);
        assert(seats.update(i, s).drop_last() =~= seats.drop_last().update(i, s));
    }
}

/// The health of `target` once the next shell hit it.
pub open spec fn shot_health(m: RoundModel, target: PlayerNumber) -> int {
    let p = m.seats[target.index() as int].player->0;
    if m.shells[0].0 == ShellType::Live {
        health_after_shot(p.health, m.modifiers.shotgun_sawn)
    } else {
        p.health
    }
}

/// The round right after the next shell was fired at `target`: the shell is spent, the saw
/// is cleared, the target is hurt or, at zero health, its seat is vacated, and the first
/// death of the round is recorded.
pub open spec fn after_shot(m: RoundModel, target: PlayerNumber) -> RoundModel {
    let ti = target.index() as int;
    let h = shot_health(m, target);
    let seat = m.seats[ti];
    RoundModel {
        seats: m.seats.update(
            ti,
            if h == 0 {
                SeatModel { player: None, ..seat }
            } else {
                SeatModel { player: Some(RoundPlayerView { health: h, ..seat.player->0 }), ..seat }
            },
        ),
        modifiers: GameModifiers { shotgun_sawn: false, ..m.modifiers },
        first_dead: if h == 0 && m.first_dead is None {
            Some(target)
        } else {
            m.first_dead
        },
        shells: m.shells.drop_first(),
        ..m
    }
}

/// A freshly dealt shell queue: a canonical combination for the player count.
pub open spec fn fresh_shells(m: RoundModel) -> bool {
    &&& sequence_table(m.count).contains((
        shell_count_of(m.shells, ShellType::Live) as usize,
        shell_count_of(m.shells, ShellType::Blank) as usize,
    ))
    &&& m.shells.len() == shell_count_of(m.shells, ShellType::Live) + shell_count_of(m.shells, ShellType::Blank)
    &&& m.shells.len() > 0
}

/// Health stays between zero and the maximum through a shot, and a kill is reported exactly
/// when the shot leaves the target's seat empty; an empty seat cannot be shot again, so a seat
/// is reported eliminated once.
pub proof fn lemma_shot_reports_each_kill_once(m: RoundModel, target: PlayerNumber)
    requires
        m.base_wf(),
        m.shells.len() > 0,
        target.index() < m.seats.len(),
        m.seats[target.index() as int].player is Some,
    ensures
        0 <= shot_health(m, target) <= m.max_health,
        (damage_of(m.shells[0].0, m.modifiers.shotgun_sawn, shot_health(m, target)) matches
            ShotgunDamage::RegularShot(k) && k) || (damage_of(
            m.shells[0].0,
            m.modifiers.shotgun_sawn,
            shot_health(m, target),
        ) matches ShotgunDamage::SawedShot(k) && k)
            <==> after_shot(m, target).seats[target.index() as int].player is None,
        after_shot(m, target).base_wf(),
{
    assert(seat_ok(m.seats[target.index() as int], target.index() as int, m.max_health));
    let a = after_shot(m, target);
    assert forall|k: int| 0 <= k < a.seats.len() implies seat_ok(#[trigger] a.seats[k], k, a.max_health) by {
        assert(seat_ok(m.seats[k], k, m.max_health));
    }
    lemma_alive_update(m.seats, target.index() as int, a.seats[target.index() as int]);
    lemma_global_keep(m.seats, target.index() as int, a.seats[target.index() as int]);
}

/// The first dead player of a round is recorded on the first elimination and never
/// replaced by a later one.
pub proof fn lemma_first_dead_recorded_once(m: RoundModel, target: PlayerNumber)
    ensures
        m.first_dead is Some ==> after_shot(m, target).first_dead == m.first_dead,
        m.first_dead is None && shot_health(m, target) == 0 ==> after_shot(m, target).first_dead == Some(target),
        m.first_dead is None && shot_health(m, target) != 0 ==> after_shot(m, target).first_dead is None,
{
}

/// Cigarettes never raise health above the round's maximum, and at full health they change
/// nothing.
pub proof fn lemma_cigarettes_capped(m: RoundModel)
    requires
        m.base_wf(),
        m.seats[m.active].player is Some,
    ensures
        unary_effect(m, UnaryItem::Cigarettes).seats[m.active].player->0.health <= m.max_health,
        m.seats[m.active].player->0.health == m.max_health ==> unary_effect(m, UnaryItem::Cigarettes) == m,
{
    assert(seat_ok(m.seats[m.active], m.active, m.max_health));
    if m.seats[m.active].player->0.health == m.max_health {
        assert(unary_effect(m, UnaryItem::Cigarettes).seats =~= m.seats);
    }
}

/// Jamming a player who is stunned or recovering, directly or with a stolen Jammer, fails with
/// `DoubleStun` and changes nothing.
pub proof fn lemma_no_double_stun(
    m: RoundModel,
    thief_from: PlayerNumber,
    target: PlayerNumber,
    r1: Result<ItemUseResult, InvalidItemUseError>,
    m1: RoundModel,
    r2: Result<ItemUseResult, InvalidItemUseError>,
    m2: RoundModel,
)
    requires
        m.other_seat(target),
        m.seats[target.index() as int].player is Some,
        m.seats[target.index() as int].player->0.stun != StunState::Unstunned,
        jammer_use(m, target, r1, m1),
        adreneline_jammer_use(m, thief_from, target, r2, m2),
    ensures
        r1 == Err::<ItemUseResult, _>(InvalidItemUseError::DoubleStun),
        m1 == m,
        r2 == Err::<ItemUseResult, _>(InvalidItemUseError::DoubleStun),
        m2 == m,
{
}

/// A player at the start of a round: alive at full health and not stunned.
pub open spec fn fresh_player(number: PlayerNumber, max_health: int) -> RoundPlayerView {
    RoundPlayerView { number, health: max_health, max_health, stun: StunState::Unstunned }
}

/// A stun state reached from `s` by at most two scheduled turns.
pub open spec fn stun_reachable(s: StunState, t: StunState) -> bool {
    t == s || t == stun_after_turn(s) || t == stun_after_turn(stun_after_turn(s))
}

/// The count of the living depends only on which seats are occupied.
pub proof fn lemma_alive_same(s1: Seq<SeatModel>, s2: Seq<SeatModel>)
    requires
        s1.len() == s2.len(),
        forall|i: int| 0 <= i < s1.len() ==> ((#[trigger] s1[i]).player is Some <==> s2[i].player is Some),
    ensures
        alive_count(s1) == alive_count(s2),
    decreases s1.len(),
{
    if s1.len() > 0 {
        lemma_alive_same(s1.drop_last(), s2.drop_last());
    }
}

/// Some seat is occupied while anyone lives.
pub proof fn lemma_alive_exists(seats: Seq<SeatModel>)
    requires
        alive_count(seats) >= 1,
    ensures
        exists|j: int| 0 <= j < seats.len() && (#[trigger] seats[j]).player is Some,
    decreases seats.len(),
{
    if seats.last().player is None {
        lemma_alive_exists(seats.drop_last());
        let j = choose|j: int| 0 <= j < seats.drop_last().len() && (#[trigger] seats.drop_last()[j]).player is Some;
        assert(seats[j].player is Some);
    } else {
        assert(seats[seats.len() - 1].player is Some);
    }
}

/// A seat whose player would take a turn now: alive and not stunned.
pub open spec fn eligible_seat(s: SeatModel) -> bool {
    s.player is Some && s.player->0.stun == StunState::Unstunned
}

/// One more step in turn order from `cur`, which lies `steps` steps past `a` and before seat
/// `j0`, lies `steps + 1` steps past `a`.
pub proof fn lemma_lap_step(a: int, len: int, inverted: bool, cur: int, steps: int, j0: int)
    requires
        2 <= len,
        0 <= a < len,
        0 <= cur < len,
        0 <= j0 < len,
        0 <= steps < steps_to(a, j0, len, inverted),
        steps == 0 ==> cur == a,
        steps >= 1 ==> steps_to(a, cur, len, inverted) == steps,
    ensures
        steps_to(a, next_index(cur, len, inverted), len, inverted) == steps + 1,
{
}

/// The first `steps` seats of the lap from `a` were passed once each, the others not yet.
#[verifier::opaque]
pub open spec fn lap_passed(start: Seq<SeatModel>, seats: Seq<SeatModel>, a: int, len: int, inverted: bool, steps: int) -> bool {
    &&& forall|j: int| 0 <= j < len && steps_to(a, j, len, inverted) <= steps ==> #[trigger] seats[j] == visited(start[j])
    &&& forall|j: int| 0 <= j < len && steps_to(a, j, len, inverted) > steps ==> #[trigger] seats[j] == start[j]
}

/// No seat whose player could move at the start lies within the first `steps` seats of the
/// lap from `a`.
#[verifier::opaque]
pub open spec fn none_eligible_within(start: Seq<SeatModel>, a: int, len: int, inverted: bool, steps: int) -> bool {
    forall|j: int| 0 <= j < len && eligible_seat(#[trigger] start[j]) ==> steps < steps_to(a, j, len, inverted)
}

/// Considering the seat `steps + 1` steps past `a` extends the part of the lap already
/// passed by that seat.
pub proof fn lemma_lap_seats(
    start: Seq<SeatModel>,
    before: Seq<SeatModel>,
    after: Seq<SeatModel>,
    a: int,
    len: int,
    inverted: bool,
    idx: int,
    steps: int,
)
    requires
        start.len() == len,
        before.len() == len,
        0 <= idx < len,
        steps_to(a, idx, len, inverted) == steps + 1,
        lap_passed(start, before, a, len, inverted, steps),
        after == before.update(idx, visited(before[idx])),
    ensures
        lap_passed(start, after, a, len, inverted, steps + 1),
        before[idx] == start[idx],
{
    reveal(lap_passed);
    assert forall|j: int| 0 <= j < len && steps_to(a, j, len, inverted) <= steps + 1 implies #[trigger] after[j] == visited(start[j]) by {
        if j != idx {
            assert(steps_to(a, j, len, inverted) != steps + 1);
            assert(before[j] == visited(start[j]));
        } else {
            assert(before[idx] == start[idx]);
        }
    }
}

/// Passing a seat whose player could not move at the start keeps every such seat ahead.
pub proof fn lemma_lap_not_eligible(start: Seq<SeatModel>, a: int, len: int, inverted: bool, idx: int, steps: int)
    requires
        0 <= idx < len,
        steps_to(a, idx, len, inverted) == steps + 1,
        !eligible_seat(start[idx]),
        none_eligible_within(start, a, len, inverted, steps),
    ensures
        none_eligible_within(start, a, len, inverted, steps + 1),
{
    reveal(none_eligible_within);
    assert forall|j: int| 0 <= j < len && eligible_seat(#[trigger] start[j]) implies steps + 1 < steps_to(a, j, len, inverted) by {
        if j == idx {
            assert(eligible_seat(start[idx]));
        }
    }
}

/// A seat in the lap ahead of the current position exists while some seat could move.
pub proof fn lemma_lap_bound(start: Seq<SeatModel>, a: int, len: int, inverted: bool, steps: int, j0: int)
    requires
        0 <= j0 < len,
        eligible_seat(start[j0]),
        none_eligible_within(start, a, len, inverted, steps),
    ensures
        steps < steps_to(a, j0, len, inverted),
{
    reveal(none_eligible_within);
}

/// When the lap stops at the first seat whose player could move, every seat before it was
/// passed once and the rest are as they were.
pub proof fn lemma_lap_result(start: Seq<SeatModel>, seats: Seq<SeatModel>, a: int, len: int, inverted: bool, idx: int, steps: int)
    requires
        start.len() == len,
        0 <= idx < len,
        steps_to(a, idx, len, inverted) == steps + 1,
        eligible_seat(start[idx]),
        none_eligible_within(start, a, len, inverted, steps),
        lap_passed(start, seats, a, len, inverted, steps + 1),
    ensures
        forall|j: int| 0 <= j < len && eligible_seat(#[trigger] start[j]) ==> steps + 1 <= steps_to(a, j, len, inverted),
        forall|j: int| 0 <= j < len && steps_to(a, j, len, inverted) < steps + 1 ==> #[trigger] seats[j] == visited(start[j]),
        forall|j: int| 0 <= j < len && steps_to(a, j, len, inverted) >= steps + 1 ==> #[trigger] seats[j] == start[j],
{
    reveal(none_eligible_within);
    reveal(lap_passed);
    assert(visited(start[idx]) == start[idx]);
    assert forall|j: int| 0 <= j < len && steps_to(a, j, len, inverted) >= steps + 1 implies #[trigger] seats[j] == start[j] by {
        if steps_to(a, j, len, inverted) == steps + 1 {
            assert(j == idx);
        }
    }
}

/// At the start of a lap nothing was passed.
pub proof fn lemma_lap_start(start: Seq<SeatModel>, a: int, len: int, inverted: bool)
    requires
        start.len() == len,
        0 <= a < len,
    ensures
        lap_passed(start, start, a, len, inverted, 0),
        none_eligible_within(start, a, len, inverted, 0),
{
    reveal(lap_passed);
    reveal(none_eligible_within);
}

/// Enough steps for a turn-order scan from `seats` to reach a player who can move: each
/// step either passes a stunned player or comes closer to a living one.
pub open spec fn scan_fuel(seats: Seq<SeatModel>) -> nat {
    stun_weight(seats) * seats.len() + seats.len() + 1
}

/// The turn-order scan from seat `i`: step to the next seat in turn order, let its scheduled
/// turn pass (see `visited`), and stop at the first seat whose player was alive and not
/// stunned; `fuel` bounds the number of steps. Gives the seats afterwards and the seat reached.
pub open spec fn scan(seats: Seq<SeatModel>, i: int, len: int, inverted: bool, fuel: nat) -> (Seq<SeatModel>, int)
    decreases fuel,
{
    if fuel == 0 {
        (seats, i)
    } else {
        let n = next_index(i, len, inverted);
        let after = seats.update(n, visited(seats[n]));
        if eligible_seat(seats[n]) {
            (after, n)
        } else {
            scan(after, n, len, inverted, (fuel - 1) as nat)
        }
    }
}

/// Seat `j` lies one to `len` steps from `i`, and a step that does not land on it comes one
/// step closer.
pub proof fn lemma_steps_next(i: int, j: int, len: int, inverted: bool)
    requires
        2 <= len,
        0 <= i < len,
        0 <= j < len,
    ensures
        next_index(i, len, inverted) != j ==> steps_to(next_index(i, len, inverted), j, len, inverted)
            == steps_to(i, j, len, inverted) - 1,
        1 <= steps_to(i, j, len, inverted) <= len,
{
}

/// One step of the scan, and the fuel left for the rest.
pub proof fn lemma_scan_step(cur: Seq<SeatModel>, i: int, len: int, inverted: bool, fuel: nat, jstar: int)
    requires
        2 <= len,
        cur.len() == len,
        0 <= i < len,
        0 <= jstar < len,
        cur[jstar].player is Some,
        fuel > stun_weight(cur) * len + steps_to(i, jstar, len, inverted),
    ensures
        ({
            let n = next_index(i, len, inverted);
            let after = cur.update(n, visited(cur[n]));
            &&& fuel >= 1
            &&& scan(cur, i, len, inverted, fuel) == if eligible_seat(cur[n]) {
                (after, n)
            } else {
                scan(after, n, len, inverted, (fuel - 1) as nat)
            }
            &&& !eligible_seat(cur[n]) ==> fuel - 1 > stun_weight(after) * len + steps_to(n, jstar, len, inverted)
        }),
{
    let n = next_index(i, len, inverted);
    let after = cur.update(n, visited(cur[n]));
    lemma_visit_weight(cur, n);
    let w = stun_weight(cur) as int;
    let w2 = stun_weight(after) as int;
    assert(0 <= w * len) by (nonlinear_arith)
        requires
            0 <= w,
            0 <= len,
    ;
    if !eligible_seat(cur[n]) {
        if cur[n].player is Some {
            assert(steps_to(n, jstar, len, inverted) <= len);
            assert(w2 * len + len <= w * len) by (nonlinear_arith)
                requires
                    w2 + 1 <= w,
                    0 <= len,
            ;
        } else {
            lemma_steps_next(i, jstar, len, inverted);
        }
    }
}

/// The round after the turn passed from its active seat (see `scan`): the same players with
/// the same health and items, a living, unstunned player to move, and every player passed on
/// the way a step further out of a stun.
pub open spec fn turn_passed(before: RoundModel, after: RoundModel) -> bool {
    let len = before.seats.len() as int;
    let inv = before.modifiers.turn_order_inverted;
    let s = scan(before.seats, before.active, len, inv, scan_fuel(before.seats));
    &&& after == (RoundModel { seats: s.0, active: s.1, ..before })
    &&& after.seats.len() == len
    &&& forall|i: int| 0 <= i < len ==> {
        &&& (#[trigger] after.seats[i]).number == before.seats[i].number
        &&& after.seats[i].items == before.seats[i].items
        &&& (after.seats[i].player is Some <==> before.seats[i].player is Some)
        &&& before.seats[i].player is Some ==> {
            &&& after.seats[i].player->0 == (RoundPlayerView {
                stun: after.seats[i].player->0.stun,
                ..before.seats[i].player->0
            })
            &&& stun_reachable(before.seats[i].player->0.stun, after.seats[i].player->0.stun)
        }
    }
    &&& alive_count(after.seats) == alive_count(before.seats)
    &&& 0 <= after.active < len
    &&& after.seats[after.active].player is Some
    &&& after.seats[after.active].player->0.stun == StunState::Unstunned
    &&& ({
        let n = next_index(before.active, len, inv);
        eligible_seat(before.seats[n]) ==> after.active == n && after.seats == before.seats
    })
    &&& (exists|j: int| 0 <= j < len && eligible_seat(#[trigger] before.seats[j])) ==> {
        let d = steps_to(before.active, after.active, len, inv);
        &&& forall|j: int| 0 <= j < len && eligible_seat(#[trigger] before.seats[j]) ==> d <= steps_to(before.active, j, len, inv)
        &&& forall|j: int| 0 <= j < len && steps_to(before.active, j, len, inv) < d ==> #[trigger] after.seats[j] == visited(before.seats[j])
        &&& forall|j: int| 0 <= j < len && steps_to(before.active, j, len, inv) >= d ==> #[trigger] after.seats[j] == before.seats[j]
    }
}

/// A seat after one of its scheduled turns was considered: its living player moves one step
/// out of a stun.
pub open spec fn visited(s: SeatModel) -> SeatModel {
    match s.player {
        Some(p) => SeatModel { player: Some(RoundPlayerView { stun: stun_after_turn(p.stun), ..p }), ..s },
        None => s,
    }
}

/// Passing a stunned or recovering player lowers the stun weight; passing anyone else keeps
/// it.
pub proof fn lemma_visit_weight(seats: Seq<SeatModel>, i: int)
    requires
        0 <= i < seats.len(),
    ensures
        seats[i].player is Some && seats[i].player->0.stun != StunState::Unstunned
            ==> stun_weight(seats.update(i, visited(seats[i]))) < stun_weight(seats),
        !(seats[i].player is Some && seats[i].player->0.stun != StunState::Unstunned)
            ==> stun_weight(seats.update(i, visited(seats[i]))) == stun_weight(seats),
{
    let s = visited(seats[i]);
    lemma_weight_update(seats, i, s);
    assert(seq![s].drop_last() =~= Seq::<SeatModel>::empty());
    assert(seq![seats[i]].drop_last() =~= Seq::<SeatModel>::empty());
    assert(seq![s].last() == s);
    assert(seq![seats[i]].last() == seats[i]);
}

/// Position of the first `it` in `items`, or -1.
pub open spec fn first_index(items: Seq<Item>, it: Item) -> int
    decreases items.len(),
{
    if items.len() == 0 {
        -1
    } else if items[0] == it {
        0
    } else {
        let r = first_index(items.drop_first(), it);
        if r < 0 { -1 } else { r + 1 }
    }
}

/// `items` with its first `it` taken out.
pub open spec fn remove_first(items: Seq<Item>, it: Item) -> Seq<Item> {
    items.remove(first_index(items, it))
}

/// The first position holding `it` is `first_index`.
pub proof fn lemma_first_index(items: Seq<Item>, it: Item, i: int)
    requires
        0 <= i < items.len(),
        items[i] == it,
        forall|j: int| 0 <= j < i ==> items[j] != it,
    ensures
        first_index(items, it) == i,
    decreases i,
{
    if i > 0 {
        lemma_first_index(items.drop_first(), it, i - 1);
    }
}

impl RoundModel {
    /// The round with one `it` taken from the inventory of seat `i`.
    pub open spec fn take_item(self, i: int, it: Item) -> RoundModel {
        self.with_items(i, remove_first(self.seats[i].items, it))
    }

    /// The round with the player of seat `i` stunned.
    pub open spec fn stunned(self, i: int) -> RoundModel {
        self.with_player(i, RoundPlayerView { stun: StunState::Stunned, ..self.seats[i].player->0 })
    }

    /// Whether `p` names a seat other than the active one.
    pub open spec fn other_seat(self, p: PlayerNumber) -> bool {
        p.index() < self.seats.len() && p.index() != self.active
    }
}

/// The round after the effect of a unary item used by the active player.
pub open spec fn unary_effect(m: RoundModel, u: UnaryItem) -> RoundModel {
    match u {
        UnaryItem::Remote => RoundModel {
            modifiers: GameModifiers {
                turn_order_inverted: !m.modifiers.turn_order_inverted,
                ..m.modifiers
            },
            ..m
        },
        UnaryItem::Phone | UnaryItem::MagnifyingGlass => m,
        UnaryItem::Inverter => RoundModel { shells: m.shells.update(0, Shell(flipped(m.shells[0].0))), ..m },
        UnaryItem::Cigarettes => m.with_player(
            m.active,
            RoundPlayerView {
                health: health_after_heal(
                    m.seats[m.active].player->0.health,
                    1,
                    m.seats[m.active].player->0.max_health,
                ),
                ..m.seats[m.active].player->0
            },
        ),
        UnaryItem::Handsaw => RoundModel {
            modifiers: GameModifiers { shotgun_sawn: true, ..m.modifiers },
            ..m
        },
        UnaryItem::Beer => RoundModel { shells: m.shells.drop_first(), ..m },
    }
}

/// Whether `r` is what a unary item reports in round `m`: the Phone reveals a shell at index
/// two or later when more than two are loaded and nothing otherwise, the Magnifying Glass
/// reveals the next shell, Beer reports the ejected shell and whether the queue emptied.
pub open spec fn unary_result_ok(m: RoundModel, u: UnaryItem, r: ItemUseResult) -> bool {
    match u {
        UnaryItem::Phone => if m.shells.len() > 2 {
            r matches ItemUseResult::LearnedShell(l) && 2 <= l.relative_index < m.shells.len()
                && l.shell_type == m.shells[l.relative_index as int].0
        } else {
            r == ItemUseResult::Default
        },
        UnaryItem::MagnifyingGlass => r == ItemUseResult::LearnedShell(
            LearnedShell { relative_index: 0, shell_type: m.shells[0].0 },
        ),
        UnaryItem::Beer => r == ItemUseResult::ShotgunRacked(
            ShotgunRackResult { empty: m.shells.len() == 1, ejected_shell_type: m.shells[0].0 },
        ),
        _ => r == ItemUseResult::Default,
    }
}

/// Using unary item `u` held in seat `holder`'s inventory: fails without it, or with a second
/// Handsaw; otherwise the item is taken and its effect applied for the active player.
pub open spec fn unary_use(
    m: RoundModel,
    holder: int,
    u: UnaryItem,
    r: Result<ItemUseResult, InvalidItemUseError>,
    m2: RoundModel,
) -> bool {
    if !m.seats[holder].items.contains(unary(u)) {
        r == Err::<ItemUseResult, _>(InvalidItemUseError::NoItem) && m2 == m
    } else if u == UnaryItem::Handsaw && m.modifiers.shotgun_sawn {
        r == Err::<ItemUseResult, _>(InvalidItemUseError::DoubleSaw) && m2 == m
    } else {
        r is Ok && unary_result_ok(m, u, r->Ok_0) && m2 == unary_effect(m.take_item(holder, unary(u)), u)
    }
}

/// Using Adrenaline to steal unary item `u` from `target` and use it at once.
pub open spec fn adreneline_use(
    m: RoundModel,
    target: PlayerNumber,
    u: UnaryItem,
    r: Result<ItemUseResult, InvalidItemUseError>,
    m2: RoundModel,
) -> bool {
    if !m.seats[m.active].items.contains(Item::Adreneline) {
        r == Err::<ItemUseResult, _>(InvalidItemUseError::NoItem) && m2 == m
    } else if !m.other_seat(target) || !m.seats[target.index() as int].items.contains(unary(u)) {
        r == Err::<ItemUseResult, _>(InvalidItemUseError::BadAdrenelineTarget) && m2 == m
    } else if u == UnaryItem::Handsaw && m.modifiers.shotgun_sawn {
        r == Err::<ItemUseResult, _>(InvalidItemUseError::DoubleSaw) && m2 == m
    } else {
        r is Ok && unary_result_ok(m, u, r->Ok_0) && m2 == unary_effect(
            m.take_item(target.index() as int, unary(u)).take_item(m.active, Item::Adreneline),
            u,
        )
    }
}

/// Why `target` cannot be jammed, if it cannot: it must be another seat with a living,
/// unstunned player.
pub open spec fn jam_error(m: RoundModel, target: PlayerNumber) -> Option<InvalidItemUseError> {
    if !m.other_seat(target) || m.seats[target.index() as int].player is None {
        Some(InvalidItemUseError::InvalidStunTarget)
    } else if m.seats[target.index() as int].player->0.stun != StunState::Unstunned {
        Some(InvalidItemUseError::DoubleStun)
    } else {
        None
    }
}

/// Using the Jammer on `target`.
pub open spec fn jammer_use(
    m: RoundModel,
    target: PlayerNumber,
    r: Result<ItemUseResult, InvalidItemUseError>,
    m2: RoundModel,
) -> bool {
    let jammer = Item::NotAdreneline(NotAdreneline::Jammer);
    if jam_error(m, target) is Some {
        r == Err::<ItemUseResult, _>(jam_error(m, target)->0) && m2 == m
    } else if !m.seats[m.active].items.contains(jammer) {
        r == Err::<ItemUseResult, _>(InvalidItemUseError::NoItem) && m2 == m
    } else {
        r == Ok::<_, InvalidItemUseError>(ItemUseResult::StunnedPlayer(target))
            && m2 == m.take_item(m.active, jammer).stunned(target.index() as int)
    }
}

/// Using Adrenaline to steal the Jammer of `thief_from` and jam `jam_target` with it.
pub open spec fn adreneline_jammer_use(
    m: RoundModel,
    thief_from: PlayerNumber,
    jam_target: PlayerNumber,
    r: Result<ItemUseResult, InvalidItemUseError>,
    m2: RoundModel,
) -> bool {
    let jammer = Item::NotAdreneline(NotAdreneline::Jammer);
    if jam_error(m, jam_target) is Some {
        r == Err::<ItemUseResult, _>(jam_error(m, jam_target)->0) && m2 == m
    } else if !m.seats[m.active].items.contains(Item::Adreneline) {
        r == Err::<ItemUseResult, _>(InvalidItemUseError::NoItem) && m2 == m
    } else if !m.other_seat(thief_from) || !m.seats[thief_from.index() as int].items.contains(jammer) {
        r == Err::<ItemUseResult, _>(InvalidItemUseError::BadAdrenelineTarget) && m2 == m
    } else {
        r == Ok::<_, InvalidItemUseError>(ItemUseResult::StunnedPlayer(jam_target)) && m2 == m.take_item(
            thief_from.index() as int,
            jammer,
        ).take_item(m.active, Item::Adreneline).stunned(jam_target.index() as int)
    }
}

/// What stays true of a playable round across an item use: the invariant, the living players
/// and the active seat's occupant; the queue empties only when Beer reports it.
pub open spec fn item_use_keeps(m: RoundModel, r: Result<ItemUseResult, InvalidItemUseError>, m2: RoundModel) -> bool {
    &&& m2.base_wf()
    &&& m2.active == m.active
    &&& m2.number == m.number
    &&& alive_count(m2.seats) == alive_count(m.seats)
    &&& m2.seats[m2.active].player is Some
    &&& (m2.shells.len() == 0 <==> (r is Ok && r->Ok_0.spec_is_terminal()))
}

} // verus!
