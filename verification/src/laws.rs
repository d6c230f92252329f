use vstd::prelude::*;
use crate::loot::LootSpotView;
use crate::map::{MapTile, TileKind, cell, in_grid, n_cells, solid_kind, turned};
use crate::player::{searched, taken_upto};
use crate::loot::ContainerView;
use crate::world::{box_items, boxes_searched, first_harvestable, harvestable, planted_kind};
use crate::entities::{Entity, EntityKind};
use crate::player::doors_opened;
use crate::walker::{WalkerMode, WalkerStep, mode_after, step_for};
use crate::motion::{Slide, slide_for};

verus! {

/// Opening a door never blocks a tile: every tile solid afterwards was
/// solid before, and a closed door that is opened can be walked through.
pub proof fn law_open_door_only_unblocks(tiles: Seq<MapTile>, x: int, y: int)
    requires
        tiles.len() == n_cells(),
    ensures
        forall|a: int, b: int|
            in_grid(a, b) && solid_kind(
                #[trigger] turned(tiles, x, y, TileKind::ClosedDoor, TileKind::OpenDoor)[cell(a, b)].kind,
            ) ==> solid_kind(tiles[cell(a, b)].kind),
        in_grid(x, y) && tiles[cell(x, y)].kind == TileKind::ClosedDoor ==> !solid_kind(
            turned(tiles, x, y, TileKind::ClosedDoor, TileKind::OpenDoor)[cell(x, y)].kind,
        ),
{
}

/// Breaking a window never blocks a tile: every tile solid afterwards was
/// solid before, and a window that is broken can be walked through.
pub proof fn law_break_window_only_unblocks(tiles: Seq<MapTile>, x: int, y: int)
    requires
        tiles.len() == n_cells(),
    ensures
        forall|a: int, b: int|
            in_grid(a, b) && solid_kind(
                #[trigger] turned(tiles, x, y, TileKind::Window, TileKind::BrokenWindow)[cell(a, b)].kind,
            ) ==> solid_kind(tiles[cell(a, b)].kind),
        in_grid(x, y) && tiles[cell(x, y)].kind == TileKind::Window ==> !solid_kind(
            turned(tiles, x, y, TileKind::Window, TileKind::BrokenWindow)[cell(x, y)].kind,
        ),
{
}

/// Opening the same door twice does what opening it once does, and so does
/// breaking the same window twice.
pub proof fn law_turning_twice(tiles: Seq<MapTile>, x: int, y: int)
    requires
        tiles.len() == n_cells(),
    ensures
        turned(turned(tiles, x, y, TileKind::ClosedDoor, TileKind::OpenDoor), x, y, TileKind::ClosedDoor, TileKind::OpenDoor)
            == turned(tiles, x, y, TileKind::ClosedDoor, TileKind::OpenDoor),
        turned(turned(tiles, x, y, TileKind::Window, TileKind::BrokenWindow), x, y, TileKind::Window, TileKind::BrokenWindow)
            == turned(tiles, x, y, TileKind::Window, TileKind::BrokenWindow),
{
}

/// Searching the same loot spots twice from the same place takes nothing
/// the second time: each spot hands its items over once.
pub proof fn law_spots_searched_once(spots: Seq<LootSpotView>, reach: Seq<bool>)
    requires
        reach.len() == spots.len(),
    ensures
        taken_upto(
            Seq::new(spots.len(), |i: int| searched(spots[i], reach[i])),
            reach,
            spots.len() as int,
        ) == Seq::<crate::loot::Item>::empty(),
{
    let after = Seq::new(spots.len(), |i: int| searched(spots[i], reach[i]));
    lemma_nothing_left(after, reach, spots.len() as int);
}

proof fn lemma_nothing_left(after: Seq<LootSpotView>, reach: Seq<bool>, n: int)
    requires
        0 <= n <= after.len(),
        reach.len() == after.len(),
        forall|i: int| 0 <= i < after.len() && reach[i] ==> (#[trigger] after[i]).looted,
    ensures
        taken_upto(after, reach, n) == Seq::<crate::loot::Item>::empty(),
    decreases n,
{
    if n > 0 {
        lemma_nothing_left(after, reach, n - 1);
        assert(taken_upto(after, reach, n) =~= taken_upto(after, reach, n - 1));
    }
}

/// Searching the same containers of a building twice with the same reach
/// takes nothing the second time.
pub proof fn law_boxes_searched_once(boxes: Seq<ContainerView>, reach: Seq<bool>)
    requires
        reach.len() == boxes.len(),
    ensures
        box_items(boxes_searched(boxes, reach), reach, boxes.len() as int)
            == Seq::<crate::loot::Item>::empty(),
{
    lemma_no_box_left(boxes_searched(boxes, reach), reach, boxes.len() as int);
}

proof fn lemma_no_box_left(after: Seq<ContainerView>, reach: Seq<bool>, n: int)
    requires
        0 <= n <= after.len(),
        reach.len() == after.len(),
        forall|i: int| 0 <= i < after.len() && reach[i] ==> (#[trigger] after[i]).looted,
    ensures
        box_items(after, reach, n) == Seq::<crate::loot::Item>::empty(),
    decreases n,
{
    if n > 0 {
        lemma_no_box_left(after, reach, n - 1);
        assert(box_items(after, reach, n) =~= box_items(after, reach, n - 1));
    }
}

/// A search from tile (tx, ty) opens each closed door on the four tiles
/// beside it, west and east as well as north and south, and changes no
/// other tile.
pub proof fn law_search_opens_doors_beside(tiles: Seq<MapTile>, tx: int, ty: int)
    requires
        tiles.len() == n_cells(),
    ensures
        forall|nx: int, ny: int|
            in_grid(nx, ny) && ((nx == tx + 1 && ny == ty) || (nx == tx - 1 && ny == ty) || (nx == tx
                && ny == ty + 1) || (nx == tx && ny == ty - 1)) && tiles[cell(nx, ny)].kind
                == TileKind::ClosedDoor ==> #[trigger] doors_opened(tiles, tx, ty, nx, ny).kind
                == TileKind::OpenDoor && !solid_kind(doors_opened(tiles, tx, ty, nx, ny).kind),
        forall|x: int, y: int|
            in_grid(x, y) && (tiles[cell(x, y)].kind != TileKind::ClosedDoor || (x - tx) * (x - tx) + (y
                - ty) * (y - ty) != 1) ==> #[trigger] doors_opened(tiles, tx, ty, x, y) == tiles[cell(
                x,
                y,
            )],
{
    assert forall|x: int, y: int|
        in_grid(x, y) && (tiles[cell(x, y)].kind != TileKind::ClosedDoor || (x - tx) * (x - tx) + (y
            - ty) * (y - ty) != 1) implies #[trigger] doors_opened(tiles, tx, ty, x, y) == tiles[cell(
        x,
        y,
    )] by {
        if tiles[cell(x, y)].kind == TileKind::ClosedDoor && ((x == tx && (y == ty + 1 || y == ty - 1))
            || (y == ty && (x == tx + 1 || x == tx - 1))) {
            assert((x - tx) * (x - tx) + (y - ty) * (y - ty) == 1) by (nonlinear_arith)
                requires
                    (x == tx && (y == ty + 1 || y == ty - 1)) || (y == ty && (x == tx + 1 || x == tx - 1)),
            ;
        }
    }
}

/// Without an axe only bushes can be harvested: a search never picks a tree
/// or a rock. With an axe, anything standing within reach can be.
pub proof fn law_bare_hands_harvest_only_bushes(es: Seq<Entity>, reach: Seq<bool>, e: Entity, reached: bool)
    ensures
        e.kind != EntityKind::Bush ==> !harvestable(e, reached, false),
        e.kind == EntityKind::Bush ==> harvestable(e, reached, false) == (e.alive && reached),
        harvestable(e, reached, true) == (e.alive && reached),
        forall|j: int| #[trigger] first_harvestable(es, reach, false, j) ==> es[j].kind == EntityKind::Bush,
{
}

/// A roll of ten plants a tree below four, a rock from four to six and a
/// bush from seven on: four trees, three rocks and three bushes in ten.
pub proof fn law_planted_kinds(roll: u32)
    ensures
        roll < 4 ==> planted_kind(roll) == EntityKind::Tree,
        4 <= roll < 7 ==> planted_kind(roll) == EntityKind::Rock,
        7 <= roll ==> planted_kind(roll) == EntityKind::Bush,
        Seq::new(10, |i: int| planted_kind(i as u32)) == seq![
            EntityKind::Tree, EntityKind::Tree, EntityKind::Tree, EntityKind::Tree,
            EntityKind::Rock, EntityKind::Rock, EntityKind::Rock,
            EntityKind::Bush, EntityKind::Bush, EntityKind::Bush,
        ],
{
    assert(Seq::new(10, |i: int| planted_kind(i as u32)) =~= seq![
        EntityKind::Tree, EntityKind::Tree, EntityKind::Tree, EntityKind::Tree,
        EntityKind::Rock, EntityKind::Rock, EntityKind::Rock,
        EntityKind::Bush, EntityKind::Bush, EntityKind::Bush,
    ]);
}

/// A walker that sees the survivor chases it next, whatever it hears and
/// however patient it is; one that keeps chasing is one that already was.
/// A walker that does not see the survivor never chases.
pub proof fn law_seen_survivor_is_chased(mode: WalkerMode, can_see: bool, gave_up: bool, heard: bool)
    ensures
        can_see ==> mode_after(step_for(mode, can_see, gave_up, heard)) == WalkerMode::Chasing,
        mode == WalkerMode::Chasing && can_see ==> step_for(mode, can_see, gave_up, heard) == WalkerStep::Chase,
        mode != WalkerMode::Chasing && can_see ==> step_for(mode, can_see, gave_up, heard) == WalkerStep::Spot,
        !can_see ==> mode_after(step_for(mode, can_see, gave_up, heard)) != WalkerMode::Chasing,
        mode == WalkerMode::Chasing && !can_see ==> mode_after(step_for(mode, can_see, gave_up, heard))
            == WalkerMode::Investigating,
        mode == WalkerMode::Wandering && !can_see ==> (mode_after(step_for(mode, can_see, gave_up, heard))
            == WalkerMode::Investigating <==> heard),
        mode == WalkerMode::Investigating && !can_see ==> (mode_after(step_for(mode, can_see, gave_up, heard))
            == WalkerMode::Wandering <==> gave_up),
{
}

/// A body whose whole step is free takes it; otherwise it slides along x if
/// that part is free, else along y, and stays only when all three are
/// blocked.
pub proof fn law_free_step_is_taken(full_free: bool, x_free: bool, y_free: bool)
    ensures
        full_free ==> slide_for(full_free, x_free, y_free) == Slide::Full,
        !full_free && x_free ==> slide_for(full_free, x_free, y_free) == Slide::AlongX,
        !full_free && !x_free && y_free ==> slide_for(full_free, x_free, y_free) == Slide::AlongY,
        slide_for(full_free, x_free, y_free) == Slide::Blocked <==> (!full_free && !x_free && !y_free),
{
}

} // verus!
