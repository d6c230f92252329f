use vstd::prelude::*;
use crate::loot::Item;

verus! {

/// Things growing or lying in the wild that can be harvested.
#[derive(Clone, Copy, PartialEq, Eq, Structural, Debug)]
pub enum EntityKind {
    Tree,
    Rock,
    Bush,
}

/// A harvestable thing at a position in world pixels, with the blows it
/// takes before it is used up.
pub struct Entity {
    pub kind: EntityKind,
    pub pos: (i64, i64),
    pub health: i32,
    pub alive: bool,
}

/// The blows a fresh entity takes: a tree three, a rock four, a bush one.
pub open spec fn entity_health(k: EntityKind) -> i32 {
    match k {
        EntityKind::Tree => 3,
        EntityKind::Rock => 4,
        EntityKind::Bush => 1,
    }
}

/// What an entity leaves when used up.
pub open spec fn entity_loot(k: EntityKind) -> Seq<Item> {
    match k {
        EntityKind::Tree => seq![Item::Wood, Item::Wood],
        EntityKind::Rock => seq![Item::Stone, Item::Stone],
        EntityKind::Bush => seq![Item::Food(20)],
    }
}

/// What one blow at an entity yields while it lasts.
pub open spec fn entity_yield(k: EntityKind) -> Item {
    match k {
        EntityKind::Tree => Item::Wood,
        EntityKind::Rock => Item::Stone,
        EntityKind::Bush => Item::Food(10),
    }
}

impl Entity {
    /// A fresh entity of kind `kind` at `pos`.
    pub fn new(kind: EntityKind, pos: (i64, i64)) -> (r: Entity)
        ensures
            r.kind == kind,
            r.pos == pos,
            r.health == entity_health(kind),
            r.alive,
    {
        let health = match kind {
            EntityKind::Tree => 3,
            EntityKind::Rock => 4,
            EntityKind::Bush => 1,
        };
        Entity { kind, pos, health, alive: true }
    }

    /// What the entity leaves when used up.
    pub fn loot(&self) -> (r: Vec<Item>)
        ensures
            r@ == entity_loot(self.kind),
    {
        match self.kind {
            EntityKind::Tree => vec![Item::Wood, Item::Wood],
            EntityKind::Rock => vec![Item::Stone, Item::Stone],
            EntityKind::Bush => vec![Item::Food(20)],
        }
    }

    /// What one blow at the entity yields while it lasts.
    pub fn harvest_item(&self) -> (r: Item)
        ensures
            r == entity_yield(self.kind),
    {
        match self.kind {
            EntityKind::Tree => Item::Wood,
            EntityKind::Rock => Item::Stone,
            EntityKind::Bush => Item::Food(10),
        }
    }

    /// Whether the entity blocks movement: standing trees and rocks do.
    pub fn is_solid(&self) -> (r: bool)
        ensures
            r == (self.alive && self.kind != EntityKind::Bush),
    {
        self.alive && !matches!(self.kind, EntityKind::Bush)
    }
}

} // verus!
