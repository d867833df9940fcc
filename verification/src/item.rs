//! Items lying on the dungeon floor, stored in a map keyed by position.

use vstd::prelude::*;

use crate::map::Rect;
use crate::rng::{stream_i32, Draw, Rng};
use crate::util::Point;

verus! {

/// The classic item classes, named for the symbols they render as.
#[derive(Copy, Clone, Debug, Eq, PartialEq, Structural)]
pub enum ItemType {
    ILLOBJ,
    WEAPON,
    ARMOR,
    RING,
    AMULET,
    TOOL,
    FOOD,
    POTION,
    SCROLL,
    SPBOOK,
    WAND,
    COIN,
    GEM,
    ROCK,
    BALL,
    CHAIN,
    VENOM,
}

/// The display symbol of each item class.
pub open spec fn spec_symbol_for_type(item_type: ItemType) -> char {
    match item_type {
        ItemType::WEAPON => ')',
        ItemType::ARMOR => '[',
        ItemType::RING => '=',
        ItemType::AMULET => '"',
        ItemType::TOOL => '(',
        ItemType::FOOD => '%',
        ItemType::POTION => '!',
        ItemType::SCROLL => '?',
        ItemType::SPBOOK => '+',
        ItemType::WAND => '/',
        ItemType::COIN => '$',
        ItemType::GEM => '*',
        ItemType::ROCK => '`',
        ItemType::BALL => '0',
        ItemType::CHAIN => '_',
        ItemType::VENOM => '.',
        ItemType::ILLOBJ => ']',
    }
}

/// Returns the map symbol used to render an item of the given type.
pub fn symbol_for_type(item_type: &ItemType) -> (c: char)
    ensures
        c == spec_symbol_for_type(*item_type),
{
    match item_type {
        ItemType::WEAPON => ')',
        ItemType::ARMOR => '[',
        ItemType::RING => '=',
        ItemType::AMULET => '"',
        ItemType::TOOL => '(',
        ItemType::FOOD => '%',
        ItemType::POTION => '!',
        ItemType::SCROLL => '?',
        ItemType::SPBOOK => '+',
        ItemType::WAND => '/',
        ItemType::COIN => '$',
        ItemType::GEM => '*',
        ItemType::ROCK => '`',
        ItemType::BALL => '0',
        ItemType::CHAIN => '_',
        ItemType::VENOM => '.',
        ItemType::ILLOBJ => ']',
    }
}

/// Struct representing a single item on the map.
#[derive(Clone, Debug)]
pub struct Item {
    pub position: Point,
    pub item_type: ItemType,
    pub name: String,
}

impl Item {
    /// Where the item lies.
    pub fn position(&self) -> (p: Point)
        ensures
            p == self.position,
    {
        self.position
    }
}

/// A mapping from tile positions to the items lying there, at most one
/// item per tile.
#[verifier::external_body]
pub struct ItemsMap {
    inner: hashbrown::HashMap<Point, Item>,
}

/// What the items map holds: the spec-level mapping from positions to
/// items.
pub uninterp spec fn items_of(m: ItemsMap) -> Map<Point, Item>;

/// The empty item mapping.
pub open spec fn no_items() -> Map<Point, Item> {
    Map::empty()
}

impl ItemsMap {
    /// The spec-level mapping this map holds.
    pub open spec fn items(self) -> Map<Point, Item> {
        items_of(self)
    }

    /// Relies on hashbrown's `HashMap::new`: an empty map.
    #[verifier::external_body]
    pub fn new() -> (r: ItemsMap)
        ensures
            r.items() == no_items(),
    {
        ItemsMap { inner: hashbrown::HashMap::new() }
    }

    /// Relies on hashbrown's `HashMap::insert`: binds the key to the
    /// value, replacing any previous binding. The map is keyed by
    /// position, so the key must be the item's own position; `values`
    /// relies on every binding satisfying that.
    #[verifier::external_body]
    pub fn insert(&mut self, position: Point, item: Item)
        requires
            item.position == position,
        ensures
            final(self).items() == old(self).items().insert(position, item),
    {
        self.inner.insert(position, item);
    }

    /// Relies on hashbrown's `HashMap::get`: the value bound to the key,
    /// if the key is bound.
    #[verifier::external_body]
    pub fn get(&self, position: &Point) -> (r: Option<&Item>)
        ensures
            match r {
                Some(item) => self.items().contains_key(*position) && *item == items_of(
                    *self,
                )[*position],
                None => !self.items().contains_key(*position),
            },
    {
        self.inner.get(position)
    }

    /// Relies on hashbrown's `HashMap::remove`: unbinds the key and
    /// returns what was bound to it.
    #[verifier::external_body]
    pub fn remove(&mut self, position: &Point) -> (r: Option<Item>)
        ensures
            final(self).items() == old(self).items().remove(*position),
            match r {
                Some(item) => old(self).items().contains_key(*position) && item == items_of(
                    *old(self),
                )[*position],
                None => !old(self).items().contains_key(*position),
            },
    {
        self.inner.remove(position)
    }

    /// Relies on hashbrown's `HashMap::len`: how many keys are bound.
    #[verifier::external_body]
    pub fn len(&self) -> (n: usize)
        ensures
            n == self.items().dom().len(),
    {
        self.inner.len()
    }

    /// Relies on hashbrown's `HashMap::values` (with `Iterator::cloned`
    /// and `collect`): one entry per binding of the map, in an
    /// unspecified order. Every binding's key is the item's position
    /// (the only way `insert` binds), so the list is a bijection onto
    /// the domain: as long as the domain, pairwise distinct positions,
    /// each listed item bound at its position.
    #[verifier::external_body]
    pub fn values(&self) -> (r: Vec<Item>)
        ensures
            r@.len() == self.items().dom().len(),
            forall|i: int|
                0 <= i < r@.len() ==> self.items().contains_key((#[trigger] r@[i]).position)
                    && self.items()[r@[i].position] == r@[i],
            forall|i: int, j: int|
                #![trigger r@[i], r@[j]]
                0 <= i < r@.len() && 0 <= j < r@.len() && i != j ==> r@[i].position
                    != r@[j].position,
    {
        self.inner.values().cloned().collect()
    }
}

/// Given the rooms of a level, place a starter item in the first room at
/// a random interior point.
pub fn place_items(rooms: &Vec<Rect>, random: &mut Rng) -> (items: ItemsMap)
    requires
        rooms@.len() > 0,
        rooms@[0].x1 + 1 < rooms@[0].x2,
        rooms@[0].y1 + 1 < rooms@[0].y2,
    ensures
        ({
            let p = Point {
                x: stream_i32(
                    old(random).seed(),
                    old(random).draws(),
                    rooms@[0].x1 + 1,
                    rooms@[0].x2 as int,
                ) as i32,
                y: stream_i32(
                    old(random).seed(),
                    old(random).draws().push(
                        Draw::RangeI32(rooms@[0].x1 + 1, rooms@[0].x2 as int),
                    ),
                    rooms@[0].y1 + 1,
                    rooms@[0].y2 as int,
                ) as i32,
            };
            items.items().dom() == set![p] && items.items()[p].position == p && items.items()[p].item_type == ItemType::WEAPON && items.items()[p].name@ == "Sword"@
                && rooms@[0].x1 < p.x < rooms@[0].x2 && rooms@[0].y1 < p.y < rooms@[0].y2
        }),
        final(random).seed() == old(random).seed(),
        final(random).draws() == old(random).draws().push(
            Draw::RangeI32(rooms@[0].x1 + 1, rooms@[0].x2 as int),
        ).push(Draw::RangeI32(rooms@[0].y1 + 1, rooms@[0].y2 as int)),
{
    let mut items = ItemsMap::new();
    let room = rooms[0];
    let rand_point = room.rand_point(random);
    items.insert(
        rand_point,
        Item { position: rand_point, item_type: ItemType::WEAPON, name: "Sword".to_owned() },
    );
    items
}

} // verus!
