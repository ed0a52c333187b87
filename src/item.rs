use indexmap::IndexMap;
use vstd::prelude::*;

verus! {

/// Number of item kinds.
pub const TOTAL_ITEMS: usize = 9;

/// Number of item kinds that act on their own, without a target.
pub const TOTAL_UNARY_ITEMS: usize = 7;

/// Items that take no target.
#[derive(Debug, Clone, Copy, PartialEq, Eq, Hash, Structural)]
pub enum UnaryItem {
    Remote,
    Phone,
    Inverter,
    MagnifyingGlass,
    Cigarettes,
    Handsaw,
    Beer,
}

/// Items that Adrenaline can steal.
#[derive(Debug, Clone, Copy, PartialEq, Eq, Hash, Structural)]
pub enum NotAdreneline {
    UnaryItem(UnaryItem),
    Jammer,
}

/// Every item kind.
#[derive(Debug, Clone, Copy, PartialEq, Eq, Hash, Structural)]
pub enum Item {
    NotAdreneline(NotAdreneline),
    Adreneline,
}

/// indexmap's insertion-ordered hash map, used as the table of item counts; what it holds is
/// seen through `table_entries`.
#[verifier::external_type_specification]
#[verifier::external_body]
#[verifier::reject_recursive_types(K)]
#[verifier::reject_recursive_types(V)]
#[verifier::reject_recursive_types(S)]
pub struct ExIndexMap<K, V, S>(IndexMap<K, V, S>);

/// The entries of an item-count table, keyed by item position (see `item_position`).
pub uninterp spec fn table_entries(m: IndexMap<usize, usize>) -> Map<usize, usize>;

/// A table without entries.
pub open spec fn empty_table() -> Map<usize, usize> {
    Map::empty()
}

/// Shorthand for a unary item as an `Item`.
pub open spec fn unary(u: UnaryItem) -> Item {
    Item::NotAdreneline(NotAdreneline::UnaryItem(u))
}

/// The position of an item in the fixed order in which items are offered: Remote, Phone,
/// Inverter, Magnifying Glass, Cigarettes, Handsaw, Beer, Adrenaline, Jammer.
pub open spec fn item_position(item: Item) -> nat {
    match item {
        Item::NotAdreneline(NotAdreneline::UnaryItem(u)) => match u {
            UnaryItem::Remote => 0,
            UnaryItem::Phone => 1,
            UnaryItem::Inverter => 2,
            UnaryItem::MagnifyingGlass => 3,
            UnaryItem::Cigarettes => 4,
            UnaryItem::Handsaw => 5,
            UnaryItem::Beer => 6,
        },
        Item::Adreneline => 7,
        Item::NotAdreneline(NotAdreneline::Jammer) => 8,
    }
}

/// The item at position `i` of the offering order (`i < 9`).
pub open spec fn item_at(i: int) -> Item {
    if i == 0 {
        unary(UnaryItem::Remote)
    } else if i == 1 {
        unary(UnaryItem::Phone)
    } else if i == 2 {
        unary(UnaryItem::Inverter)
    } else if i == 3 {
        unary(UnaryItem::MagnifyingGlass)
    } else if i == 4 {
        unary(UnaryItem::Cigarettes)
    } else if i == 5 {
        unary(UnaryItem::Handsaw)
    } else if i == 6 {
        unary(UnaryItem::Beer)
    } else if i == 7 {
        Item::Adreneline
    } else {
        Item::NotAdreneline(NotAdreneline::Jammer)
    }
}

/// How many items may be on the whole table at once.
pub open spec fn global_limit(item: Item) -> nat {
    match item {
        Item::NotAdreneline(NotAdreneline::UnaryItem(UnaryItem::Remote)) => 2,
        Item::NotAdreneline(NotAdreneline::UnaryItem(_)) => 32,
        Item::NotAdreneline(NotAdreneline::Jammer) => 1,
        Item::Adreneline => 32,
    }
}

/// How many items of a kind one player may hold.
pub open spec fn player_limit(item: Item) -> nat {
    match item {
        Item::NotAdreneline(NotAdreneline::UnaryItem(u)) => match u {
            UnaryItem::Remote | UnaryItem::Cigarettes => 1,
            UnaryItem::MagnifyingGlass | UnaryItem::Handsaw => 2,
            UnaryItem::Inverter => 4,
            UnaryItem::Phone | UnaryItem::Beer => 8,
        },
        Item::NotAdreneline(NotAdreneline::Jammer) => 1,
        Item::Adreneline => 4,
    }
}

/// How often `item` occurs in `items`.
pub open spec fn count_of(items: Seq<Item>, item: Item) -> nat
    decreases items.len(),
{
    if items.len() == 0 {
        0
    } else {
        count_of(items.drop_last(), item) + if items.last() == item {
            1nat
        } else {
            0nat
        }
    }
}

/// Adding one item raises its count by one and leaves the others.
pub proof fn lemma_count_push(items: Seq<Item>, added: Item, item: Item)
    ensures
        count_of(items.push(added), item) == count_of(items, item) + if added == item {
            1nat
        } else {
            0nat
        },
{
    assert(items.push(added).drop_last() =~= items);
}

/// Removing the item at `i` lowers its count by one and leaves the others.
pub proof fn lemma_count_remove(items: Seq<Item>, i: int, item: Item)
    requires
        0 <= i < items.len(),
    ensures
        count_of(items, item) == count_of(items.remove(i), item) + if items[i] == item {
            1nat
        } else {
            0nat
        },
    decreases items.len(),
{
    if i == items.len() - 1 {
        assert(items.remove(i) =~= items.drop_last());
    } else {
        lemma_count_remove(items.drop_last(), i, item);
        assert(items.remove(i).drop_last() =~= items.drop_last().remove(i));
    }
}

/// An item occurs at most as often as the sequence is long.
pub proof fn lemma_count_le_len(items: Seq<Item>, item: Item)
    ensures
        count_of(items, item) <= items.len(),
    decreases items.len(),
{
    if items.len() > 0 {
        lemma_count_le_len(items.drop_last(), item);
    }
}

/// No kind of item is held more often than one player may hold it.
#[verifier::opaque]
pub open spec fn within_player_limits(items: Seq<Item>) -> bool {
    forall|it: Item| #[trigger] count_of(items, it) <= player_limit(it)
}

impl Item {
    /// The item's display name.
    pub fn name(&self) -> (r: &'static str)
        ensures
            *self == unary(UnaryItem::MagnifyingGlass) ==> r@ == "Magnifying Glass"@,
            *self == Item::Adreneline ==> r@ == "Adreneline"@,
            *self == Item::NotAdreneline(NotAdreneline::Jammer) ==> r@ == "Jammer"@,
    {
        match self {
            Item::NotAdreneline(not_adreneline) => match not_adreneline {
                NotAdreneline::UnaryItem(unary_item) => match unary_item {
                    UnaryItem::Remote => "Remote",
                    UnaryItem::Phone => "Phone",
                    UnaryItem::Inverter => "Inverter",
                    UnaryItem::MagnifyingGlass => "Magnifying Glass",
                    UnaryItem::Cigarettes => "Cigarettes",
                    UnaryItem::Handsaw => "Handsaw",
                    UnaryItem::Beer => "Beer",
                },
                NotAdreneline::Jammer => "Jammer",
            },
            Item::Adreneline => "Adreneline",
        }
    }

    /// Position of the item in the offering order.
    pub fn position(&self) -> (r: usize)
        ensures
            r == item_position(*self),
            r < TOTAL_ITEMS,
            item_at(r as int) == *self,
    {
        match self {
            Item::NotAdreneline(NotAdreneline::UnaryItem(u)) => match u {
                UnaryItem::Remote => 0,
                UnaryItem::Phone => 1,
                UnaryItem::Inverter => 2,
                UnaryItem::MagnifyingGlass => 3,
                UnaryItem::Cigarettes => 4,
                UnaryItem::Handsaw => 5,
                UnaryItem::Beer => 6,
            },
            Item::Adreneline => 7,
            Item::NotAdreneline(NotAdreneline::Jammer) => 8,
        }
    }

    /// The item at position `i` of the offering order.
    pub fn at_position(i: usize) -> (r: Item)
        requires
            i < TOTAL_ITEMS,
        ensures
            r == item_at(i as int),
            item_position(r) == i,
    {
        if i == 0 {
            Item::NotAdreneline(NotAdreneline::UnaryItem(UnaryItem::Remote))
        } else if i == 1 {
            Item::NotAdreneline(NotAdreneline::UnaryItem(UnaryItem::Phone))
        } else if i == 2 {
            Item::NotAdreneline(NotAdreneline::UnaryItem(UnaryItem::Inverter))
        } else if i == 3 {
            Item::NotAdreneline(NotAdreneline::UnaryItem(UnaryItem::MagnifyingGlass))
        } else if i == 4 {
            Item::NotAdreneline(NotAdreneline::UnaryItem(UnaryItem::Cigarettes))
        } else if i == 5 {
            Item::NotAdreneline(NotAdreneline::UnaryItem(UnaryItem::Handsaw))
        } else if i == 6 {
            Item::NotAdreneline(NotAdreneline::UnaryItem(UnaryItem::Beer))
        } else if i == 7 {
            Item::Adreneline
        } else {
            Item::NotAdreneline(NotAdreneline::Jammer)
        }
    }
}

/// Relies on indexmap::IndexMap::with_capacity: a new map holds no entries.
#[verifier::external_body]
fn table_with_capacity(n: usize) -> (r: IndexMap<usize, usize>)
    ensures
        table_entries(r) == empty_table(),
{
    IndexMap::with_capacity(n)
}

/// Relies on indexmap::IndexMap::insert: afterwards `key` maps to `value`, other entries
/// stay as they were.
#[verifier::external_body]
pub(crate) fn table_insert(m: &mut IndexMap<usize, usize>, key: usize, value: usize)
    ensures
        table_entries(*final(m)) == table_entries(*old(m)).insert(key, value),
{
    m.insert(key, value);
}

/// Relies on indexmap::IndexMap::get: the value stored under `key`, if any.
#[verifier::external_body]
pub(crate) fn table_get(m: &IndexMap<usize, usize>, key: usize) -> (r: Option<usize>)
    ensures
        r == (if table_entries(*m).contains_key(key) {
            Some(table_entries(*m)[key])
        } else {
            None::<usize>
        }),
{
    m.get(&key).copied()
}

/// A table that maps every item position to zero.
pub fn initialize_item_count_map() -> (r: IndexMap<usize, usize>)
    ensures
        table_entries(r) == Map::new(|k: usize| k < TOTAL_ITEMS, |k: usize| 0usize),
{
    let mut map = table_with_capacity(TOTAL_ITEMS);
    let mut i: usize = 0;
    while i < TOTAL_ITEMS
        invariant
            i <= TOTAL_ITEMS,
            table_entries(map) =~= Map::new(|k: usize| k < i, |k: usize| 0usize),
        decreases TOTAL_ITEMS - i,
    {
        table_insert(&mut map, i, 0);
        i = i + 1;
        assert(table_entries(map) =~= Map::new(|k: usize| k < i, |k: usize| 0usize));
    }
    map
}

/// How many items of a kind may be on the whole table at once.
pub fn global_item_limit(item: Item) -> (r: usize)
    ensures
        r == global_limit(item),
{
    match item {
        Item::NotAdreneline(not_adreneline) => match not_adreneline {
            NotAdreneline::UnaryItem(unary_item) => match unary_item {
                UnaryItem::Remote => 2,
                UnaryItem::Phone
                | UnaryItem::Inverter
                | UnaryItem::MagnifyingGlass
                | UnaryItem::Cigarettes
                | UnaryItem::Handsaw
                | UnaryItem::Beer => 32,
            },
            NotAdreneline::Jammer => 1,
        },
        Item::Adreneline => 32,
    }
}

/// How many items of a kind one player may hold.
pub fn player_item_limit(item: Item) -> (r: usize)
    ensures
        r == player_limit(item),
{
    match item {
        Item::NotAdreneline(not_adreneline) => match not_adreneline {
            NotAdreneline::UnaryItem(unary_item) => match unary_item {
                UnaryItem::Remote | UnaryItem::Cigarettes => 1,
                UnaryItem::MagnifyingGlass | UnaryItem::Handsaw => 2,
                UnaryItem::Inverter => 4,
                UnaryItem::Phone | UnaryItem::Beer => 8,
            },
            NotAdreneline::Jammer => 1,
        },
        Item::Adreneline => 4,
    }
}

} // verus!
