use vstd::prelude::*;
use crate::loot::{Item, LootSpot, LootSpotView, consumable};
use crate::map::{GameMap, MapTile, TileKind, cell, in_grid};

verus! {

/// What a survivor carries: the inventory, the selected slot and whether
/// the car keys are among the items.
pub struct Player {
    pub inventory: Vec<Item>,
    pub active_slot: usize,
    pub has_keys: bool,
}

/// The items taken from the first `n` spots: those of each spot that was
/// not searched yet and is within reach, in order.
pub open spec fn taken_upto(spots: Seq<LootSpotView>, reach: Seq<bool>, n: int) -> Seq<Item>
    decreases n,
{
    if n <= 0 {
        seq![]
    } else {
        taken_upto(spots, reach, n - 1) + if !spots[n - 1].looted && reach[n - 1] {
            spots[n - 1].items
        } else {
            seq![]
        }
    }
}

/// A spot after a search: emptied and marked searched when it was not
/// searched yet and within reach, else as it was.
pub open spec fn searched(s: LootSpotView, reached: bool) -> LootSpotView {
    if !s.looted && reached {
        LootSpotView { items: seq![], looted: true, ..s }
    } else {
        s
    }
}

/// Tile (x, y) after opening the doors next to tile (tx, ty): each closed
/// door among the four tiles beside it stands open.
pub open spec fn doors_opened(old: Seq<MapTile>, tx: int, ty: int, x: int, y: int) -> MapTile {
    let t = old[cell(x, y)];
    if t.kind == TileKind::ClosedDoor && ((x == tx && (y == ty + 1 || y == ty - 1)) || (y == ty
        && (x == tx + 1 || x == tx - 1))) {
        MapTile { kind: TileKind::OpenDoor, ..t }
    } else {
        t
    }
}

impl Player {
    /// The selected slot points into the inventory, or is the first slot of
    /// an empty one.
    pub open spec fn wf(&self) -> bool {
        self.active_slot < self.inventory@.len() || self.active_slot == 0
    }

    /// A survivor with a knife, a bandage, some food and some water, the
    /// knife selected, without the car keys.
    pub fn new() -> (r: Player)
        ensures
            r.inventory@ == seq![Item::Knife, Item::Bandage, Item::Food(20), Item::Water(15)],
            r.active_slot == 0,
            !r.has_keys,
            r.wf(),
    {
        Player {
            inventory: vec![Item::Knife, Item::Bandage, Item::Food(20), Item::Water(15)],
            active_slot: 0,
            has_keys: false,
        }
    }

    /// The item in the selected slot, if the slot holds one.
    pub fn active_item(&self) -> (r: Option<&Item>)
        ensures
            r == if self.active_slot < self.inventory@.len() {
                Some(&self.inventory@[self.active_slot as int])
            } else {
                None
            },
    {
        if self.active_slot < self.inventory.len() {
            Some(&self.inventory[self.active_slot])
        } else {
            None
        }
    }

    /// Selects slot `i`, if the inventory has one.
    pub fn select_slot(&mut self, i: usize)
        ensures
            final(self).inventory == old(self).inventory,
            final(self).has_keys == old(self).has_keys,
            final(self).active_slot == if i < old(self).inventory@.len() {
                i
            } else {
                old(self).active_slot
            },
            old(self).wf() ==> final(self).wf(),
    {
        if i < self.inventory.len() {
            self.active_slot = i;
        }
    }

    /// Selects the previous slot, if there is one.
    pub fn select_prev_slot(&mut self)
        ensures
            final(self).inventory == old(self).inventory,
            final(self).has_keys == old(self).has_keys,
            final(self).active_slot == if old(self).active_slot > 0 {
                (old(self).active_slot - 1) as usize
            } else {
                0
            },
            old(self).wf() ==> final(self).wf(),
    {
        if self.active_slot > 0 {
            self.active_slot = self.active_slot - 1;
        }
    }

    /// Selects the next slot, stopping at the last one.
    pub fn select_next_slot(&mut self)
        ensures
            final(self).inventory == old(self).inventory,
            final(self).has_keys == old(self).has_keys,
            final(self).active_slot == if old(self).inventory@.len() == 0 {
                old(self).active_slot
            } else if old(self).active_slot + 1 < old(self).inventory@.len() {
                (old(self).active_slot + 1) as usize
            } else {
                (old(self).inventory@.len() - 1) as usize
            },
            old(self).wf() ==> final(self).wf(),
    {
        if !self.inventory.is_empty() {
            let last = self.inventory.len() - 1;
            self.active_slot = if self.active_slot < last { self.active_slot + 1 } else { last };
        }
    }

    /// Notes whether the car keys are in the inventory.
    pub fn update_keys(&mut self)
        ensures
            final(self).inventory == old(self).inventory,
            final(self).active_slot == old(self).active_slot,
            final(self).has_keys == old(self).inventory@.contains(Item::CarKeys),
    {
        let mut i: usize = 0;
        let mut found = false;
        while i < self.inventory.len()
            invariant
                i <= self.inventory@.len(),
                found == exists|j: int| 0 <= j < i && self.inventory@[j] == Item::CarKeys,
            decreases self.inventory@.len() - i,
        {
            if self.inventory[i] == Item::CarKeys {
                found = true;
            }
            i = i + 1;
        }
        self.has_keys = found;
    }

    /// Uses up the item in the selected slot, if it is food, water or
    /// medicine: it leaves the inventory and is returned, so that its effect
    /// can be applied; the selection stays on the same slot, or moves to the
    /// last one when the used item was last. Anything else stays and `None`
    /// comes back.
    pub fn use_active_item(&mut self) -> (r: Option<Item>)
        ensures
            final(self).has_keys == old(self).has_keys,
            old(self).active_slot < old(self).inventory@.len() && consumable(
                old(self).inventory@[old(self).active_slot as int],
            ) ==> {
                &&& r == Some(old(self).inventory@[old(self).active_slot as int])
                &&& final(self).inventory@ == old(self).inventory@.remove(old(self).active_slot as int)
                &&& final(self).active_slot == if old(self).active_slot >= final(self).inventory@.len()
                    && final(self).inventory@.len() > 0 {
                    (final(self).inventory@.len() - 1) as usize
                } else {
                    old(self).active_slot
                }
            },
            !(old(self).active_slot < old(self).inventory@.len() && consumable(
                old(self).inventory@[old(self).active_slot as int],
            )) ==> r is None && final(self).inventory == old(self).inventory && final(self).active_slot
                == old(self).active_slot,
            old(self).wf() ==> final(self).wf(),
    {
        if self.active_slot >= self.inventory.len() {
            return None;
        }
        let item = self.inventory[self.active_slot];
        if !item.is_consumable() {
            return None;
        }
        self.inventory.remove(self.active_slot);
        if self.active_slot >= self.inventory.len() && !self.inventory.is_empty() {
            self.active_slot = self.inventory.len() - 1;
        }
        Some(item)
    }

    /// Searches the map from tile (tx, ty): every spot not searched yet whose
    /// entry in `reach` is true hands its items over and is marked searched;
    /// then the closed doors on the four tiles beside (tx, ty) open.
    pub fn interact(&mut self, map: &mut GameMap, tx: i32, ty: i32, reach: &Vec<bool>)
        requires
            old(map).wf(),
            reach@.len() == old(map).loot@.len(),
            i32::MIN < tx < i32::MAX,
            i32::MIN < ty < i32::MAX,
        ensures
            final(map).wf(),
            final(self).inventory@ == old(self).inventory@ + taken_upto(
                old(map).loot@.map_values(|l: LootSpot| l@),
                reach@,
                reach@.len() as int,
            ),
            final(self).active_slot == old(self).active_slot,
            final(self).has_keys == old(self).has_keys,
            final(map).loot@.len() == old(map).loot@.len(),
            forall|i: int|
                0 <= i < old(map).loot@.len() ==> #[trigger] final(map).loot@[i]@ == searched(
                    old(map).loot@[i]@,
                    reach@[i],
                ),
            final(map).escape_tile == old(map).escape_tile,
            forall|x: int, y: int|
                in_grid(x, y) ==> #[trigger] final(map).tiles@[cell(x, y)] == doors_opened(
                    old(map).tiles@,
                    tx as int,
                    ty as int,
                    x,
                    y,
                ),
            in_grid(tx as int, ty + 1) && old(map).tiles@[cell(tx as int, ty + 1)].kind == TileKind::ClosedDoor
                ==> final(map).tiles@[cell(tx as int, ty + 1)].kind == TileKind::OpenDoor,
            in_grid(tx as int, ty - 1) && old(map).tiles@[cell(tx as int, ty - 1)].kind == TileKind::ClosedDoor
                ==> final(map).tiles@[cell(tx as int, ty - 1)].kind == TileKind::OpenDoor,
            in_grid(tx + 1, ty as int) && old(map).tiles@[cell(tx + 1, ty as int)].kind == TileKind::ClosedDoor
                ==> final(map).tiles@[cell(tx + 1, ty as int)].kind == TileKind::OpenDoor,
            in_grid(tx - 1, ty as int) && old(map).tiles@[cell(tx - 1, ty as int)].kind == TileKind::ClosedDoor
                ==> final(map).tiles@[cell(tx - 1, ty as int)].kind == TileKind::OpenDoor,
            forall|x: int, y: int|
                in_grid(x, y) && !((x == tx && (y == ty + 1 || y == ty - 1)) || (y == ty && (x == tx + 1
                    || x == tx - 1))) ==> #[trigger] final(map).tiles@[cell(x, y)] == old(map).tiles@[cell(x, y)],
            old(self).wf() ==> final(self).wf(),
    {
        let ghost spots0 = map.loot@.map_values(|l: LootSpot| l@);
        let ghost inv0 = self.inventory@;
        let mut i: usize = 0;
        while i < map.loot.len()
            invariant
                map.wf(),
                reach@.len() == map.loot@.len(),
                spots0.len() == map.loot@.len(),
                i <= map.loot@.len(),
                self.active_slot == old(self).active_slot,
                self.has_keys == old(self).has_keys,
                map.escape_tile == old(map).escape_tile,
                map.tiles == old(map).tiles,
                spots0 == old(map).loot@.map_values(|l: LootSpot| l@),
                inv0 == old(self).inventory@,
                self.inventory@ == inv0 + taken_upto(spots0, reach@, i as int),
                forall|j: int|
                    0 <= j < map.loot@.len() ==> #[trigger] map.loot@[j]@ == if j < i {
                        searched(spots0[j], reach@[j])
                    } else {
                        spots0[j]
                    },
            decreases map.loot@.len() - i,
        {
            assert(map.loot@[i as int]@ == spots0[i as int]);
            if !map.loot[i].looted && reach[i] {
                let mut spot = LootSpot::new((0, 0), Vec::new(), "");
                map.loot.set_and_swap(i, &mut spot);
                self.inventory.append(&mut spot.items);
                spot.looted = true;
                map.loot.set_and_swap(i, &mut spot);
            }
            proof {
                assert(self.inventory@ =~= inv0 + taken_upto(spots0, reach@, i as int + 1));
            }
            i = i + 1;
        }
        // Open the doors beside the survivor.
        let ghost t0 = map.tiles@;
        map.open_door(tx, ty + 1);
        map.open_door(tx, ty - 1);
        map.open_door(tx + 1, ty);
        map.open_door(tx - 1, ty);
        proof {
            let (ax, ay, bx, by, cx, cy, dx, dy) = (tx as int, ty + 1, tx as int, ty - 1, tx + 1, ty as int, tx - 1, ty as int);
            crate::map::lemma_cells_apart(ax, ay, bx, by);
            crate::map::lemma_cells_apart(ax, ay, cx, cy);
            crate::map::lemma_cells_apart(ax, ay, dx, dy);
            crate::map::lemma_cells_apart(bx, by, cx, cy);
            crate::map::lemma_cells_apart(bx, by, dx, dy);
            crate::map::lemma_cells_apart(cx, cy, dx, dy);
            assert forall|x: int, y: int|
                in_grid(x, y) implies #[trigger] map.tiles@[cell(x, y)] == doors_opened(
                t0,
                tx as int,
                ty as int,
                x,
                y,
            ) by {
                crate::map::lemma_cells_apart(x, y, ax, ay);
                crate::map::lemma_cells_apart(x, y, bx, by);
                crate::map::lemma_cells_apart(x, y, cx, cy);
                crate::map::lemma_cells_apart(x, y, dx, dy);
            }
        }
    }
}

} // verus!
