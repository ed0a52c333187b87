use crate::item::{
    count_of, global_limit, item_at, item_position, player_limit, table_entries, table_get,
    initialize_item_count_map, table_insert, global_item_limit, player_item_limit, Item,
    lemma_count_push, within_player_limits, TOTAL_ITEMS,
};
use crate::player_number::PlayerNumber;
use crate::random_source::RandomSource;
use crate::round_player::{
    health_after_heal, health_after_shot, stun_after_turn, RoundPlayer, RoundPlayerView, StunState,
};
use crate::shell::{Shell, ShellType, ShotgunDamage};
use indexmap::IndexMap;
use vstd::prelude::*;

verus! {

/// Most items a seat can hold.
pub const MAX_ITEMS: usize = 8;

/// A fixed place in the turn order; it keeps its player number after its occupant dies.
#[derive(Debug)]
pub struct Seat {
    player_number: PlayerNumber,
    player: Option<RoundPlayer>,
    items: Vec<Item>,
}

/// What other players may see of a seat.
#[derive(Debug, Clone)]
pub struct SeatView {
    pub stun_state: Option<StunState>,
    pub player_number: PlayerNumber,
    pub items: Vec<Item>,
}

/// The occupant and inventory of a seat whose player is alive, borrowed for a change.
#[derive(Debug)]
pub struct OccupiedSeat<'seat> {
    pub player: &'seat mut RoundPlayer,
    pub items: &'seat mut Vec<Item>,
}

/// The abstract state of a seat.
pub struct SeatModel {
    pub number: PlayerNumber,
    pub player: Option<RoundPlayerView>,
    pub items: Seq<Item>,
}

impl View for Seat {
    type V = SeatModel;

    closed spec fn view(&self) -> SeatModel {
        SeatModel {
            number: self.player_number,
            player: match self.player {
                Some(p) => Some(p@),
                None => None,
            },
            items: self.items@,
        }
    }
}

/// Whether the item at position `k` may be handed to a seat holding `items`, given the
/// table-wide counts and how many players are alive: below the per-player cap, below the
/// table-wide cap, and a Remote only while three or more players live.
pub open spec fn offered(items: Seq<Item>, table: Map<usize, usize>, remaining: nat, k: int) -> bool {
    &&& count_of(items, item_at(k)) < player_limit(item_at(k))
    &&& table.contains_key(k as usize)
    &&& table[k as usize] < global_limit(item_at(k))
    &&& (k != 0 || remaining > 2)
}

/// The items offered to a seat, in the fixed offering order, among the first `n` positions.
pub open spec fn pool_upto(items: Seq<Item>, table: Map<usize, usize>, remaining: nat, n: int) -> Seq<Item>
    decreases n,
{
    if n <= 0 {
        Seq::empty()
    } else {
        let before = pool_upto(items, table, remaining, n - 1);
        if offered(items, table, remaining, n - 1) {
            before.push(item_at(n - 1))
        } else {
            before
        }
    }
}

/// The items offered to a seat holding `items`.
pub open spec fn pool_of(items: Seq<Item>, table: Map<usize, usize>, remaining: nat) -> Seq<Item> {
    pool_upto(items, table, remaining, TOTAL_ITEMS as int)
}

/// Every item offered to a seat is one it holds fewer of than its per-player cap, and the
/// table fewer than its table-wide cap.
pub proof fn lemma_pool_below_limit(items: Seq<Item>, table: Map<usize, usize>, remaining: nat, n: int, x: Item)
    requires
        pool_upto(items, table, remaining, n).contains(x),
        n <= TOTAL_ITEMS,
    ensures
        count_of(items, x) < player_limit(x),
        table.contains_key(item_position(x) as usize),
        table[item_position(x) as usize] < global_limit(x),
        x == item_at(0) ==> remaining > 2,
    decreases n,
{
    if n > 0 {
        let before = pool_upto(items, table, remaining, n - 1);
        if offered(items, table, remaining, n - 1) {
            let p = before.push(item_at(n - 1));
            let j = choose|j: int| 0 <= j < p.len() && #[trigger] p[j] == x;
            if j < before.len() {
                assert(before[j] == x);
                lemma_pool_below_limit(items, table, remaining, n - 1, x);
            }
        } else {
            lemma_pool_below_limit(items, table, remaining, n - 1, x);
        }
    }
}

/// An item offered at position `k` is in the pool.
pub proof fn lemma_pool_has(items: Seq<Item>, table: Map<usize, usize>, remaining: nat, n: int, k: int)
    requires
        0 <= k < n,
        offered(items, table, remaining, k),
    ensures
        pool_upto(items, table, remaining, n).contains(item_at(k)),
    decreases n,
{
    let before = pool_upto(items, table, remaining, n - 1);
    if k == n - 1 {
        assert(before.push(item_at(k))[before.len() as int] == item_at(k));
    } else {
        lemma_pool_has(items, table, remaining, n - 1, k);
        if offered(items, table, remaining, n - 1) {
            let j = choose|j: int| 0 <= j < before.len() && before[j] == item_at(k);
            assert(before.push(item_at(n - 1))[j] == item_at(k));
        }
    }
}

/// A copy of a list of items.
pub fn copy_items(items: &Vec<Item>) -> (r: Vec<Item>)
    ensures
        r@ == items@,
{
    let mut out: Vec<Item> = Vec::with_capacity(items.len());
    let mut i: usize = 0;
    while i < items.len()
        invariant
            i <= items@.len(),
            out@ == items@.subrange(0, i as int),
        decreases items@.len() - i,
    {
        out.push(items[i]);
        i = i + 1;
        assert(out@ =~= items@.subrange(0, i as int));
    }
    assert(items@.subrange(0, items@.len() as int) =~= items@);
    out
}

/// The damage a shell deals to a player, given the player's health after the shot.
pub open spec fn damage_of(shell: ShellType, sawn: bool, health_after: int) -> ShotgunDamage {
    if shell == ShellType::Blank {
        ShotgunDamage::Blank
    } else if sawn {
        ShotgunDamage::SawedShot(health_after == 0)
    } else {
        ShotgunDamage::RegularShot(health_after == 0)
    }
}

impl<'seat> OccupiedSeat<'seat> {
    /// Fires `shell` at this seat's player: a live shell deals one damage, two when sawn; a
    /// blank deals none.
    pub fn shoot(&mut self, shell: Shell, sawn: bool) -> (r: ShotgunDamage)
        requires
            old(self).player.wf(),
        ensures
            final(self).player.wf(),
            *final(self).items == *old(self).items,
            shell.0 == ShellType::Blank ==> *final(self).player == *old(self).player,
            shell.0 == ShellType::Live ==> final(self).player@ == (RoundPlayerView {
                health: health_after_shot(old(self).player@.health, sawn),
                ..old(self).player@
            }),
            r == damage_of(shell.0, sawn, final(self).player@.health),
    {
        if shell.fire() {
            let killed = self.player.take_damage(sawn);
            if sawn {
                ShotgunDamage::SawedShot(killed)
            } else {
                ShotgunDamage::RegularShot(killed)
            }
        } else {
            ShotgunDamage::Blank
        }
    }
}

/// Appends `item` to `pool` when a seat holding it may receive another: the seat holds fewer
/// than the per-player cap, the table fewer than the table-wide cap, and `additional_check`
/// allows it.
fn add_item_to_pool_checked(
    pool: &mut Vec<Item>,
    item: Item,
    current_table_item_counts: &IndexMap<usize, usize>,
    player_item_counts: &IndexMap<usize, usize>,
    additional_check: bool,
)
    requires
        table_entries(*player_item_counts).contains_key(item_position(item) as usize),
        table_entries(*current_table_item_counts).contains_key(item_position(item) as usize),
    ensures
        final(pool)@ == if table_entries(*player_item_counts)[item_position(item) as usize] < player_limit(item)
            && table_entries(*current_table_item_counts)[item_position(item) as usize] < global_limit(item)
            && additional_check {
            old(pool)@.push(item)
        } else {
            old(pool)@
        },
{
    let position = item.position();
    let player_item_limit = player_item_limit(item);
    let current_count = table_get(player_item_counts, position);
    match current_count {
        Some(c) => {
            if player_item_limit <= c {
                return;
            }
        },
        None => {
            return;
        },
    }
    let global_item_limit = global_item_limit(item);
    let global_count = table_get(current_table_item_counts, position);
    match global_count {
        Some(c) => {
            if global_item_limit <= c {
                return;
            }
        },
        None => {
            return;
        },
    }
    if !additional_check {
        return;
    }
    pool.push(item);
}

impl Seat {
    /// A seat holding `player`, with no items.
    pub fn new(player: RoundPlayer) -> (r: Self)
        ensures
            r@.number == player@.number,
            r@.player == Some(player@),
            r@.items == Seq::<Item>::empty(),
    {
        Seat { player_number: player.player_number(), player: Some(player), items: Vec::new() }
    }

    pub fn player_number(&self) -> (r: PlayerNumber)
        ensures
            r == self@.number,
    {
        self.player_number
    }

    /// The occupant, if alive.
    pub fn player(&self) -> (r: Option<&RoundPlayer>)
        ensures
            self@.player is None <==> r is None,
            r is Some ==> self@.player == Some(r->0@),
    {
        match &self.player {
            Some(player) => Some(player),
            None => None,
        }
    }

    /// Whether the seat's occupant is alive.
    pub fn is_occupied(&self) -> (r: bool)
        ensures
            r == self@.player is Some,
    {
        self.player.is_some()
    }

    /// Borrows the occupant and inventory for a change; `None` for an empty seat.
    pub fn create_occupied_seat(&mut self) -> (r: Option<OccupiedSeat<'_>>)
        ensures
            r is None <==> old(self)@.player is None,
            r is None ==> final(self)@ == old(self)@,
            r is Some ==> {
                &&& old(self)@.player == Some(r->0.player@)
                &&& old(self)@.items == r->0.items@
                &&& final(self)@ == (SeatModel {
                    number: old(self)@.number,
                    player: Some(final(r->0.player)@),
                    items: final(r->0.items)@,
                })
            },
    {
        match &mut self.player {
            Some(player) => Some(OccupiedSeat { player, items: &mut self.items }),
            None => None,
        }
    }

    /// Vacates the seat of a dead player.
    pub fn empty_dead_body(&mut self)
        requires
            old(self)@.player is Some,
            old(self)@.player->0.health == 0,
        ensures
            final(self)@ == (SeatModel { player: None, ..old(self)@ }),
    {
        self.player = None;
    }

    /// The items this seat may be offered now, in the fixed offering order.
    pub fn item_pool(
        &self,
        remaining_players: usize,
        current_table_item_counts: &IndexMap<usize, usize>,
    ) -> (r: Vec<Item>)
        requires
            forall|k: usize| k < TOTAL_ITEMS ==> #[trigger] table_entries(*current_table_item_counts).contains_key(k),
        ensures
            r@ == pool_of(self@.items, table_entries(*current_table_item_counts), remaining_players as nat),
    {
        let mut player_item_counts = initialize_item_count_map();
        let mut i: usize = 0;
        while i < self.items.len()
            invariant
                i <= self.items@.len(),
                forall|k: usize| k < TOTAL_ITEMS ==> #[trigger] table_entries(player_item_counts).contains_key(k),
                forall|k: usize| k < TOTAL_ITEMS ==> #[trigger] table_entries(player_item_counts)[k]
                    == count_of(self.items@.subrange(0, i as int), item_at(k as int)),
                forall|k: usize| k < TOTAL_ITEMS ==> #[trigger] count_of(self.items@.subrange(0, i as int), item_at(k as int)) <= i,
            decreases self.items@.len() - i,
        {
            let item = self.items[i];
            let position = item.position();
            proof {
                assert forall|k: usize| k < TOTAL_ITEMS implies #[trigger] count_of(self.items@.subrange(0, i + 1), item_at(k as int))
                    == count_of(self.items@.subrange(0, i as int), item_at(k as int)) + if item == item_at(k as int) { 1nat } else { 0nat } by {
                    assert(self.items@.subrange(0, i + 1) =~= self.items@.subrange(0, i as int).push(item));
                    lemma_count_push(self.items@.subrange(0, i as int), item, item_at(k as int));
                }
            }
            let current = table_get(&player_item_counts, position);
            let c = match current {
                Some(c) => c,
                None => 0,
            };
            table_insert(&mut player_item_counts, position, c + 1);
            i = i + 1;
            proof {
                assert forall|k: usize| k < TOTAL_ITEMS implies #[trigger] table_entries(player_item_counts)[k]
                    == count_of(self.items@.subrange(0, i as int), item_at(k as int)) by {
                    if k != position {
                        assert(item != item_at(k as int));
                    }
                }
            }
        }
        assert(self.items@.subrange(0, self.items@.len() as int) =~= self.items@);
        let mut item_pool: Vec<Item> = Vec::with_capacity(TOTAL_ITEMS);
        let mut k: usize = 0;
        while k < TOTAL_ITEMS
            invariant
                k <= TOTAL_ITEMS,
                forall|j: usize| j < TOTAL_ITEMS ==> #[trigger] table_entries(player_item_counts).contains_key(j),
                forall|j: usize| j < TOTAL_ITEMS ==> #[trigger] table_entries(*current_table_item_counts).contains_key(j),
                forall|j: usize| j < TOTAL_ITEMS ==> #[trigger] table_entries(player_item_counts)[j]
                    == count_of(self.items@, item_at(j as int)),
                item_pool@ == pool_upto(self@.items, table_entries(*current_table_item_counts), remaining_players as nat, k as int),
            decreases TOTAL_ITEMS - k,
        {
            let item = Item::at_position(k);
            add_item_to_pool_checked(
                &mut item_pool,
                item,
                current_table_item_counts,
                &player_item_counts,
                k != 0 || remaining_players > 2,
            );
            k = k + 1;
        }
        item_pool
    }

    /// Hands this seat one new item, drawn uniformly from its pool. Nothing is drawn for an
    /// empty seat, a full inventory, or an empty pool.
    pub fn get_new_item<R: RandomSource>(
        &mut self,
        remaining_players: usize,
        current_table_item_counts: &IndexMap<usize, usize>,
        rng: &mut R,
    ) -> (r: Option<Item>)
        requires
            forall|k: usize| k < TOTAL_ITEMS ==> #[trigger] table_entries(*current_table_item_counts).contains_key(k),
        ensures
            final(self)@.number == old(self)@.number,
            final(self)@.player == old(self)@.player,
            r is None <==> (old(self)@.player is None || old(self)@.items.len() >= MAX_ITEMS
                || pool_of(old(self)@.items, table_entries(*current_table_item_counts), remaining_players as nat).len() == 0),
            r is None ==> final(self)@.items == old(self)@.items,
            r is Some ==> {
                &&& pool_of(old(self)@.items, table_entries(*current_table_item_counts), remaining_players as nat).contains(r->0)
                &&& final(self)@.items == old(self)@.items.push(r->0)
                &&& table_entries(*current_table_item_counts)[item_position(r->0) as usize] < global_limit(r->0)
                &&& r->0 == item_at(0) ==> remaining_players > 2
            },
            within_player_limits(old(self)@.items) ==> within_player_limits(final(self)@.items),
    {
        if self.player.is_none() || self.items.len() >= MAX_ITEMS {
            return None;
        }
        let item_pool = self.item_pool(remaining_players, current_table_item_counts);
        if item_pool.len() == 0 {
            return None;
        }
        let index = rng.index_in(0, item_pool.len());
        let item = item_pool[index];
        let ghost old_items = self.items@;
        self.items.push(item);
        proof {
            let pool = pool_of(old_items, table_entries(*current_table_item_counts), remaining_players as nat);
            assert(pool[index as int] == item);
            lemma_pool_below_limit(old_items, table_entries(*current_table_item_counts), remaining_players as nat, TOTAL_ITEMS as int, item);
            reveal(within_player_limits);
            if within_player_limits(old_items) {
                assert forall|it: Item| #[trigger] count_of(self.items@, it) <= player_limit(it) by {
                    lemma_count_push(old_items, item, it);
                    assert(count_of(old_items, it) <= player_limit(it));
                }
            }
        }
        Some(item)
    }

    /// Considers a scheduled turn of this seat: an occupied seat's stun moves on one step.
    /// Returns whether the seat's player takes the turn (alive and not stunned).
    pub fn update_stun_for_turn(&mut self) -> (r: bool)
        ensures
            final(self)@.number == old(self)@.number,
            final(self)@.items == old(self)@.items,
            old(self)@.player is None ==> final(self)@.player is None && !r,
            old(self)@.player is Some ==> {
                &&& final(self)@.player == Some(RoundPlayerView {
                    stun: stun_after_turn(old(self)@.player->0.stun),
                    ..old(self)@.player->0
                })
                &&& r == (old(self)@.player->0.stun == StunState::Unstunned)
            },
    {
        match &mut self.player {
            Some(player) => player.update_stunned(),
            None => false,
        }
    }

    /// Fires `shell` at this seat's occupant.
    pub fn receive_shot(&mut self, shell: Shell, sawn: bool) -> (r: ShotgunDamage)
        requires
            old(self)@.player is Some,
            0 <= old(self)@.player->0.health <= old(self)@.player->0.max_health,
        ensures
            final(self)@.number == old(self)@.number,
            final(self)@.items == old(self)@.items,
            final(self)@.player is Some,
            final(self)@.player->0 == if shell.0 == ShellType::Live {
                RoundPlayerView {
                    health: health_after_shot(old(self)@.player->0.health, sawn),
                    ..old(self)@.player->0
                }
            } else {
                old(self)@.player->0
            },
            r == damage_of(shell.0, sawn, final(self)@.player->0.health),
    {
        match &mut self.player {
            Some(player) => {
                if shell.fire() {
                    let killed = player.take_damage(sawn);
                    if sawn {
                        ShotgunDamage::SawedShot(killed)
                    } else {
                        ShotgunDamage::RegularShot(killed)
                    }
                } else {
                    ShotgunDamage::Blank
                }
            },
            None => ShotgunDamage::Blank,
        }
    }

    /// Heals this seat's occupant by `amount`, never above the maximum.
    pub fn heal(&mut self, amount: u8)
        requires
            old(self)@.player is Some,
            0 <= old(self)@.player->0.health <= old(self)@.player->0.max_health,
        ensures
            final(self)@ == (SeatModel {
                player: Some(RoundPlayerView {
                    health: health_after_heal(
                        old(self)@.player->0.health,
                        amount as int,
                        old(self)@.player->0.max_health,
                    ),
                    ..old(self)@.player->0
                }),
                ..old(self)@
            }),
    {
        match &mut self.player {
            Some(player) => player.gain_health(amount),
            None => {},
        }
    }

    /// Stuns this seat's occupant, who must not be stunned yet.
    pub fn stun_occupant(&mut self)
        requires
            old(self)@.player is Some,
            old(self)@.player->0.stun == StunState::Unstunned,
        ensures
            final(self)@ == (SeatModel {
                player: Some(RoundPlayerView { stun: StunState::Stunned, ..old(self)@.player->0 }),
                ..old(self)@
            }),
    {
        match &mut self.player {
            Some(player) => {
                let _ = player.stun();
            },
            None => {},
        }
    }

    /// Removes the item at position `index` of the inventory.
    pub fn remove_item(&mut self, index: usize) -> (r: Item)
        requires
            index < old(self)@.items.len(),
        ensures
            r == old(self)@.items[index as int],
            final(self)@ == (SeatModel { items: old(self)@.items.remove(index as int), ..old(self)@ }),
    {
        self.items.remove(index)
    }

    pub fn items(&self) -> (r: &Vec<Item>)
        ensures
            r@ == self@.items,
    {
        &self.items
    }

    /// What other players see of this seat.
    pub fn create_view(&self) -> (r: SeatView)
        ensures
            r.player_number == self@.number,
            r.items@ == self@.items,
            r.stun_state == (match self@.player {
                Some(p) => Some(p.stun),
                None => None::<StunState>,
            }),
    {
        let stun_state = match &self.player {
            Some(player) => Some(player.stun_state()),
            None => None,
        };
        SeatView { stun_state, player_number: self.player_number, items: copy_items(&self.items) }
    }
}

} // verus!
