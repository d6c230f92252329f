use vstd::prelude::*;
use crate::buildings::{Building, BuildingKind, BuildingView, boxes_view, building_boxes, building_label, building_size};
use crate::loot::{ContainerView, Item, LootContainer};
use crate::entities::{entity_loot, entity_yield};
use crate::camera::{MAP_W, MAP_H};
use crate::entities::{Entity, EntityKind};
use crate::map::{
    cell, grid_get, idx, in_bounds, in_grid, lemma_cells_apart, n_cells, paint_rect, painted_with, put,
};
use crate::rng::roll_below;

verus! {

/// What a tile of the wild is made of.
#[derive(Clone, Copy, PartialEq, Eq, Structural, Debug)]
pub enum TileKind {
    Grass,
    Forest,
    Road,
    Water,
    Sand,
    BuildingFloor,
    BuildingWall,
}

/// The kinds that block movement: forest, water and walls.
pub open spec fn wild_solid(k: TileKind) -> bool {
    k == TileKind::Forest || k == TileKind::Water || k == TileKind::BuildingWall
}

impl TileKind {
    /// Whether the tile blocks movement.
    pub fn is_solid(self) -> (r: bool)
        ensures
            r == wild_solid(self),
    {
        matches!(self, TileKind::Forest | TileKind::Water | TileKind::BuildingWall)
    }
}

/// The wild: a row-major grid of `MAP_W` x `MAP_H` tiles, the buildings and
/// the harvestable things in it.
pub struct World {
    pub tiles: Vec<TileKind>,
    pub buildings: Vec<Building>,
    pub entities: Vec<Entity>,
}

/// The roads of the wild: one three tiles wide along row 18 and one along
/// column 18, a branch to the north-west and one to the south-east.
pub open spec fn road_at(x: int, y: int) -> bool {
    let cx = 18int;
    let cy = 18int;
    ||| cy - 1 <= y <= cy + 1
    ||| cx - 1 <= x <= cx + 1
    ||| cx - 25 <= x < cx - 8 && cy - 15 <= y <= cy - 14
    ||| cx - 25 <= x <= cx - 24 && cy - 15 <= y < cy
    ||| cx + 8 <= x < cx + 28 && cy + 15 <= y <= cy + 16
    ||| cx + 28 <= x <= cx + 29 && cy <= y < cy + 16
}

/// Whether (x, y) lies within distance `r` of (cx, cy).
pub open spec fn in_disk(x: int, y: int, cx: int, cy: int, r: int) -> bool {
    (x - cx) * (x - cx) + (y - cy) * (y - cy) <= r * r
}

/// The centres and radii of the forests, in the order they are planted.
pub open spec fn forest_center(i: int) -> (int, int, int) {
    if i == 0 { (15, 15, 12) } else if i == 1 { (30, 10, 8) } else if i == 2 { (80, 20, 10) }
    else if i == 3 { (100, 15, 9) } else if i == 4 { (10, 70, 11) } else if i == 5 { (20, 85, 8) }
    else if i == 6 { (90, 80, 13) } else if i == 7 { (105, 90, 10) } else if i == 8 { (40, 40, 7) }
    else if i == 9 { (75, 45, 9) } else if i == 10 { (55, 85, 8) } else if i == 11 { (15, 45, 6) }
    else if i == 12 { (95, 55, 7) } else if i == 13 { (35, 100, 9) } else if i == 14 { (85, 100, 8) }
    else { (110, 55, 10) }
}

/// The centres and radii of the lakes.
pub open spec fn lake(i: int) -> (int, int, int) {
    if i == 0 { (22, 33, 12) } else { (88, 72, 11) }
}

/// The buildings of the wild, by kind and corner tile, in the order they
/// are placed.
pub open spec fn building_spec(i: int) -> (BuildingKind, int, int) {
    if i == 0 { (BuildingKind::Macken, 21, 10) } else if i == 1 { (BuildingKind::IcaNara, -2, 21) }
    else if i == 2 { (BuildingKind::Stuga, 30, 21) } else if i == 3 { (BuildingKind::Stuga, 38, 21) }
    else if i == 4 { (BuildingKind::Stuga, -12, -2) } else if i == 5 { (BuildingKind::Forrad, -11, -8) }
    else if i == 6 { (BuildingKind::Stuga, 48, 36) } else if i == 7 { (BuildingKind::Forrad, 48, 42) }
    else if i == 8 { (BuildingKind::Camping, -7, 10) } else { (BuildingKind::Stuga, 30, 8) }
}

/// A forest of centre `c.0, c.1` and radius `c.2` over `prev`: grass within
/// the radius turns to forest.
pub open spec fn forest_over(prev: TileKind, x: int, y: int, c: (int, int, int)) -> TileKind {
    if in_disk(x, y, c.0, c.1, c.2) && prev == TileKind::Grass {
        TileKind::Forest
    } else {
        prev
    }
}

/// A lake of centre `l.0, l.1` and radius `l.2` over `prev`: water within
/// the radius, and a beach of sand two tiles wide around it, where there is
/// no water already.
pub open spec fn lake_over(prev: TileKind, x: int, y: int, l: (int, int, int)) -> TileKind {
    if in_disk(x, y, l.0, l.1, l.2) {
        TileKind::Water
    } else if in_disk(x, y, l.0, l.1, l.2 + 2) && prev != TileKind::Water {
        TileKind::Sand
    } else {
        prev
    }
}

/// A building of `tw` x `th` tiles with corner (tx, ty) over `prev`: walls
/// on its border but for a door gap two tiles wide in the middle of the
/// bottom wall, floor inside.
pub open spec fn building_over(prev: TileKind, x: int, y: int, tx: int, ty: int, tw: int, th: int) -> TileKind {
    let dx = x - tx;
    let dy = y - ty;
    if 0 <= dx < tw && 0 <= dy < th {
        let on_perimeter = dx == 0 || dy == 0 || dx == tw - 1 || dy == th - 1;
        let door = dy == th - 1 && (dx == tw / 2 || dx == tw / 2 - 1);
        if on_perimeter && !door {
            TileKind::BuildingWall
        } else {
            TileKind::BuildingFloor
        }
    } else {
        prev
    }
}

/// Tile (x, y) after the roads and the first `n` forests.
pub open spec fn forested(n: int, x: int, y: int) -> TileKind
    decreases n,
{
    if n <= 0 {
        if road_at(x, y) { TileKind::Road } else { TileKind::Grass }
    } else {
        forest_over(forested(n - 1, x, y), x, y, forest_center(n - 1))
    }
}

/// Tile (x, y) after the forests and the first `n` lakes.
pub open spec fn flooded(n: int, x: int, y: int) -> TileKind
    decreases n,
{
    if n <= 0 {
        forested(16, x, y)
    } else {
        lake_over(flooded(n - 1, x, y), x, y, lake(n - 1))
    }
}

/// Tile (x, y) after the lakes and the first `n` buildings.
pub open spec fn settled(n: int, x: int, y: int) -> TileKind
    decreases n,
{
    if n <= 0 {
        flooded(2, x, y)
    } else {
        let b = building_spec(n - 1);
        let size = building_size(b.0);
        building_over(settled(n - 1, x, y), x, y, b.1, b.2, size.0 as int, size.1 as int)
    }
}

/// The kind of tile (x, y) of a freshly generated wild.
pub open spec fn world_kind(x: int, y: int) -> TileKind {
    settled(10, x, y)
}

/// Every tile of `tiles` is the one `kind_of` gives.
pub open spec fn wild_laid(tiles: Seq<TileKind>, kind_of: spec_fn(int, int) -> TileKind) -> bool {
    &&& tiles.len() == n_cells()
    &&& forall|x: int, y: int| in_grid(x, y) ==> #[trigger] grid_get(tiles, x, y) == kind_of(x, y)
}

/// Within the disk of radius `r`, both offsets are at most `r`.
proof fn lemma_disk_box(dx: int, dy: int, r: int)
    requires
        0 <= r,
        dx * dx + dy * dy <= r * r,
    ensures
        -r <= dx <= r,
        -r <= dy <= r,
{
    assert(dx * dx <= r * r) by (nonlinear_arith)
        requires
            dx * dx + dy * dy <= r * r,
    ;
    assert(dy * dy <= r * r) by (nonlinear_arith)
        requires
            dx * dx + dy * dy <= r * r,
    ;
    assert(-r <= dx <= r) by (nonlinear_arith)
        requires
            dx * dx <= r * r,
            0 <= r,
    ;
    assert(-r <= dy <= r) by (nonlinear_arith)
        requires
            dy * dy <= r * r,
            0 <= r,
    ;
}

fn wild_get(tiles: &Vec<TileKind>, x: i32, y: i32) -> (r: TileKind)
    requires
        tiles@.len() == n_cells(),
    ensures
        r == if in_grid(x as int, y as int) { grid_get(tiles@, x as int, y as int) } else { TileKind::Water },
{
    if !in_bounds(x, y) {
        return TileKind::Water;
    }
    tiles[idx(x, y)]
}

/// Plants a forest of centre (fx, fy) and radius `r`.
fn plant_forest(tiles: &mut Vec<TileKind>, fx: i32, fy: i32, r: i32)
    requires
        old(tiles)@.len() == n_cells(),
        -1000 <= fx <= 1000,
        -1000 <= fy <= 1000,
        0 <= r <= 100,
    ensures
        final(tiles)@.len() == n_cells(),
        forall|x: int, y: int|
            in_grid(x, y) ==> #[trigger] grid_get(final(tiles)@, x, y) == forest_over(
                grid_get(old(tiles)@, x, y),
                x,
                y,
                (fx as int, fy as int, r as int),
            ),
{
    let ghost start = tiles@;
    let ghost c = (fx as int, fy as int, r as int);
    let mut dy: i32 = -r;
    proof {
        assert forall|a: int, b: int| in_grid(a, b) && b - fy < -r implies forest_over(
            grid_get(start, a, b),
            a,
            b,
            c,
        ) == grid_get(start, a, b) by {
            if in_disk(a, b, fx as int, fy as int, r as int) {
                lemma_disk_box(a - fx, b - fy, r as int);
            }
        }
    }
    while dy <= r
        invariant
            tiles@.len() == n_cells(),
            start.len() == n_cells(),
            -1000 <= fx <= 1000,
            -1000 <= fy <= 1000,
            0 <= r <= 100,
            c == (fx as int, fy as int, r as int),
            -r <= dy <= r + 1,
            forall|a: int, b: int|
                in_grid(a, b) ==> #[trigger] grid_get(tiles@, a, b) == if b - fy < dy {
                    forest_over(grid_get(start, a, b), a, b, (fx as int, fy as int, r as int))
                } else {
                    grid_get(start, a, b)
                },
        decreases r + 1 - dy,
    {
        let mut dx: i32 = -r;
        proof {
            assert forall|a: int, b: int| in_grid(a, b) && a - fx < -r implies forest_over(
                grid_get(start, a, b),
                a,
                b,
                c,
            ) == grid_get(start, a, b) by {
                if in_disk(a, b, fx as int, fy as int, r as int) {
                    lemma_disk_box(a - fx, b - fy, r as int);
                }
            }
        }
        while dx <= r
            invariant
                tiles@.len() == n_cells(),
                start.len() == n_cells(),
                -1000 <= fx <= 1000,
                -1000 <= fy <= 1000,
                0 <= r <= 100,
                c == (fx as int, fy as int, r as int),
                -r <= dy <= r,
                -r <= dx <= r + 1,
                forall|a: int, b: int|
                    in_grid(a, b) ==> #[trigger] grid_get(tiles@, a, b) == if b - fy < dy || (b - fy
                        == dy && a - fx < dx) {
                        forest_over(grid_get(start, a, b), a, b, (fx as int, fy as int, r as int))
                    } else {
                        grid_get(start, a, b)
                    },
            decreases r + 1 - dx,
        {
            let ghost before = tiles@;
            assert(0 <= dx * dx <= 10201 && 0 <= dy * dy <= 10201 && 0 <= r * r <= 10000) by (nonlinear_arith)
                requires
                    -101 <= dx <= 101,
                    -101 <= dy <= 101,
                    0 <= r <= 100,
            ;
            if dx * dx + dy * dy <= r * r {
                let tx = fx + dx;
                let ty = fy + dy;
                if wild_get(tiles, tx, ty) == TileKind::Grass {
                    put(tiles, tx, ty, TileKind::Forest);
                }
            }
            proof {
                assert forall|a: int, b: int| in_grid(a, b) implies #[trigger] grid_get(tiles@, a, b)
                    == if b - fy < dy || (b - fy == dy && a - fx < dx + 1) {
                    forest_over(grid_get(start, a, b), a, b, (fx as int, fy as int, r as int))
                } else {
                    grid_get(start, a, b)
                } by {
                    lemma_cells_apart(a, b, (fx + dx) as int, (fy + dy) as int);
                }
            }
            dx = dx + 1;
        }
        proof {
            assert forall|a: int, b: int| in_grid(a, b) && a - fx > r implies forest_over(
                grid_get(start, a, b),
                a,
                b,
                c,
            ) == grid_get(start, a, b) by {
                if in_disk(a, b, fx as int, fy as int, r as int) {
                    lemma_disk_box(a - fx, b - fy, r as int);
                }
            }
        }
        dy = dy + 1;
    }
    proof {
        assert forall|x: int, y: int| in_grid(x, y) implies #[trigger] grid_get(tiles@, x, y)
            == forest_over(grid_get(start, x, y), x, y, (fx as int, fy as int, r as int)) by {
            if in_disk(x, y, fx as int, fy as int, r as int) {
                lemma_disk_box(x - fx, y - fy, r as int);
            }
        }
    }
}

/// Fills a lake of centre (lx, ly) and radius `r`, with its beach.
fn fill_lake(tiles: &mut Vec<TileKind>, lx: i32, ly: i32, r: i32)
    requires
        old(tiles)@.len() == n_cells(),
        -1000 <= lx <= 1000,
        -1000 <= ly <= 1000,
        0 <= r <= 100,
    ensures
        final(tiles)@.len() == n_cells(),
        forall|x: int, y: int|
            in_grid(x, y) ==> #[trigger] grid_get(final(tiles)@, x, y) == lake_over(
                grid_get(old(tiles)@, x, y),
                x,
                y,
                (lx as int, ly as int, r as int),
            ),
{
    let ghost start = tiles@;
    let outer = r + 2;
    let ghost l = (lx as int, ly as int, r as int);
    let mut dy: i32 = -outer;
    proof {
        assert forall|a: int, b: int| in_grid(a, b) && b - ly < -outer implies lake_over(
            grid_get(start, a, b),
            a,
            b,
            l,
        ) == grid_get(start, a, b) by {
            if in_disk(a, b, lx as int, ly as int, r + 2) {
                lemma_disk_box(a - lx, b - ly, r + 2);
            }
            if in_disk(a, b, lx as int, ly as int, r as int) {
                lemma_disk_box(a - lx, b - ly, r as int);
            }
        }
    }
    while dy <= outer
        invariant
            tiles@.len() == n_cells(),
            start.len() == n_cells(),
            -1000 <= lx <= 1000,
            -1000 <= ly <= 1000,
            0 <= r <= 100,
            outer == r + 2,
            l == (lx as int, ly as int, r as int),
            -outer <= dy <= outer + 1,
            forall|a: int, b: int|
                in_grid(a, b) ==> #[trigger] grid_get(tiles@, a, b) == if b - ly < dy {
                    lake_over(grid_get(start, a, b), a, b, (lx as int, ly as int, r as int))
                } else {
                    grid_get(start, a, b)
                },
        decreases outer + 1 - dy,
    {
        let mut dx: i32 = -outer;
        proof {
            assert forall|a: int, b: int| in_grid(a, b) && a - lx < -outer implies lake_over(
                grid_get(start, a, b),
                a,
                b,
                l,
            ) == grid_get(start, a, b) by {
                if in_disk(a, b, lx as int, ly as int, r + 2) {
                    lemma_disk_box(a - lx, b - ly, r + 2);
                }
                if in_disk(a, b, lx as int, ly as int, r as int) {
                    lemma_disk_box(a - lx, b - ly, r as int);
                }
            }
        }
        while dx <= outer
            invariant
                tiles@.len() == n_cells(),
                start.len() == n_cells(),
                -1000 <= lx <= 1000,
                -1000 <= ly <= 1000,
                0 <= r <= 100,
                outer == r + 2,
                l == (lx as int, ly as int, r as int),
                -outer <= dy <= outer,
                -outer <= dx <= outer + 1,
                forall|a: int, b: int|
                    in_grid(a, b) ==> #[trigger] grid_get(tiles@, a, b) == if b - ly < dy || (b - ly
                        == dy && a - lx < dx) {
                        lake_over(grid_get(start, a, b), a, b, (lx as int, ly as int, r as int))
                    } else {
                        grid_get(start, a, b)
                    },
            decreases outer + 1 - dx,
        {
            assert(0 <= dx * dx <= 10404 && 0 <= dy * dy <= 10404 && 0 <= r * r <= 10000 && 0
                <= outer * outer <= 10404) by (nonlinear_arith)
                requires
                    -102 <= dx <= 102,
                    -102 <= dy <= 102,
                    0 <= r <= 100,
                    outer == r + 2,
            ;
            let d2 = dx * dx + dy * dy;
            let tx = lx + dx;
            let ty = ly + dy;
            if d2 <= r * r {
                put(tiles, tx, ty, TileKind::Water);
            } else if d2 <= outer * outer {
                if wild_get(tiles, tx, ty) != TileKind::Water {
                    put(tiles, tx, ty, TileKind::Sand);
                }
            }
            proof {
                let ghost now = tiles@;
                assert forall|a: int, b: int| in_grid(a, b) implies #[trigger] grid_get(now, a, b)
                    == if b - ly < dy || (b - ly == dy && a - lx < dx + 1) {
                    lake_over(grid_get(start, a, b), a, b, (lx as int, ly as int, r as int))
                } else {
                    grid_get(start, a, b)
                } by {
                    lemma_cells_apart(a, b, tx as int, ty as int);
                }
            }
            dx = dx + 1;
        }
        proof {
            assert forall|a: int, b: int| in_grid(a, b) && a - lx > outer implies lake_over(
                grid_get(start, a, b),
                a,
                b,
                l,
            ) == grid_get(start, a, b) by {
                if in_disk(a, b, lx as int, ly as int, r + 2) {
                    lemma_disk_box(a - lx, b - ly, r + 2);
                }
                if in_disk(a, b, lx as int, ly as int, r as int) {
                    lemma_disk_box(a - lx, b - ly, r as int);
                }
            }
        }
        dy = dy + 1;
    }
    proof {
        assert forall|x: int, y: int| in_grid(x, y) implies #[trigger] grid_get(tiles@, x, y)
            == lake_over(grid_get(start, x, y), x, y, (lx as int, ly as int, r as int)) by {
            if in_disk(x, y, lx as int, ly as int, r + 2) {
                lemma_disk_box(x - lx, y - ly, r + 2);
            }
            if in_disk(x, y, lx as int, ly as int, r as int) {
                lemma_disk_box(x - lx, y - ly, r as int);
            }
        }
    }
}

/// The corner tile of building `i` of the wild, for the exec side.
fn building_spec_at(i: usize) -> (r: (BuildingKind, i32, i32))
    requires
        i < 10,
    ensures
        r.0 == building_spec(i as int).0,
        r.1 as int == building_spec(i as int).1,
        r.2 as int == building_spec(i as int).2,
{
    let cx: i32 = (MAP_W / 2) as i32;
    let cy: i32 = (MAP_H / 2) as i32;
    match i {
        0 => (BuildingKind::Macken, cx + 3, cy - 8),
        1 => (BuildingKind::IcaNara, cx - 20, cy + 3),
        2 => (BuildingKind::Stuga, cx + 12, cy + 3),
        3 => (BuildingKind::Stuga, cx + 20, cy + 3),
        4 => (BuildingKind::Stuga, cx - 30, cy - 20),
        5 => (BuildingKind::Forrad, cx - 29, cy - 26),
        6 => (BuildingKind::Stuga, cx + 30, cy + 18),
        7 => (BuildingKind::Forrad, cx + 30, cy + 24),
        8 => (BuildingKind::Camping, cx - 25, cy - 8),
        _ => (BuildingKind::Stuga, cx + 12, cy - 10),
    }
}

/// The forest centres and radii, for the exec side.
fn forest_center_at(i: usize) -> (r: (i32, i32, i32))
    requires
        i < 16,
    ensures
        (r.0 as int, r.1 as int, r.2 as int) == forest_center(i as int),
{
    match i {
        0 => (15, 15, 12),
        1 => (30, 10, 8),
        2 => (80, 20, 10),
        3 => (100, 15, 9),
        4 => (10, 70, 11),
        5 => (20, 85, 8),
        6 => (90, 80, 13),
        7 => (105, 90, 10),
        8 => (40, 40, 7),
        9 => (75, 45, 9),
        10 => (55, 85, 8),
        11 => (15, 45, 6),
        12 => (95, 55, 7),
        13 => (35, 100, 9),
        14 => (85, 100, 8),
        _ => (110, 55, 10),
    }
}

/// The lake centres and radii, for the exec side.
fn lake_at(i: usize) -> (r: (i32, i32, i32))
    requires
        i < 2,
    ensures
        (r.0 as int, r.1 as int, r.2 as int) == lake(i as int),
{
    if i == 0 {
        (22, 33, 12)
    } else {
        (88, 72, 11)
    }
}

/// The kind of harvestable thing a draw of `roll` out of ten plants: a
/// tree below four, a rock below seven, else a bush.
pub open spec fn planted_kind(roll: u32) -> EntityKind {
    if roll < 4 {
        EntityKind::Tree
    } else if roll < 7 {
        EntityKind::Rock
    } else {
        EntityKind::Bush
    }
}

impl World {
    /// The grid has one tile per cell.
    pub open spec fn wf(&self) -> bool {
        self.tiles@.len() == n_cells()
    }

    /// The kind of tile (x, y); off the map, water.
    pub open spec fn kind_at(&self, x: int, y: int) -> TileKind {
        if in_grid(x, y) {
            grid_get(self.tiles@, x, y)
        } else {
            TileKind::Water
        }
    }

    /// The kind of tile (x, y); off the map, water.
    pub fn get_tile(&self, x: i32, y: i32) -> (r: TileKind)
        requires
            self.wf(),
        ensures
            r == self.kind_at(x as int, y as int),
    {
        wild_get(&self.tiles, x, y)
    }

    /// Makes tile (x, y) of kind `k`; off the map nothing changes.
    pub fn set_tile(&mut self, x: i32, y: i32, k: TileKind)
        requires
            old(self).wf(),
        ensures
            final(self).wf(),
            painted_with(old(self).tiles@, final(self).tiles@, x as int, y as int, x as int, y as int, k),
            final(self).buildings == old(self).buildings,
            final(self).entities == old(self).entities,
    {
        put(&mut self.tiles, x, y, k);
    }

    /// Lays the tiles of building `b`: walls on its border with a door gap
    /// two tiles wide in the middle of the bottom wall, floor inside.
    fn place_building_tiles(&mut self, b: &Building)
        requires
            old(self).wf(),
            0 <= b.tw <= 1000,
            0 <= b.th <= 1000,
            -1000 <= b.tx <= 1000,
            -1000 <= b.ty <= 1000,
        ensures
            final(self).wf(),
            final(self).buildings == old(self).buildings,
            final(self).entities == old(self).entities,
            forall|x: int, y: int|
                in_grid(x, y) ==> #[trigger] grid_get(final(self).tiles@, x, y) == building_over(
                    grid_get(old(self).tiles@, x, y),
                    x,
                    y,
                    b.tx as int,
                    b.ty as int,
                    b.tw as int,
                    b.th as int,
                ),
    {
        let ghost start = self.tiles@;
        let mut dy: i32 = 0;
        while dy < b.th
            invariant
                self.wf(),
                start.len() == n_cells(),
                self.buildings == old(self).buildings,
                self.entities == old(self).entities,
                start == old(self).tiles@,
                0 <= b.tw <= 1000,
                0 <= b.th <= 1000,
                -1000 <= b.tx <= 1000,
                -1000 <= b.ty <= 1000,
                0 <= dy <= b.th,
                forall|a: int, c: int|
                    in_grid(a, c) ==> #[trigger] grid_get(self.tiles@, a, c) == if c - b.ty < dy {
                        building_over(grid_get(start, a, c), a, c, b.tx as int, b.ty as int, b.tw as int, b.th as int)
                    } else {
                        grid_get(start, a, c)
                    },
            decreases b.th - dy,
        {
            let mut dx: i32 = 0;
            while dx < b.tw
                invariant
                    self.wf(),
                    start.len() == n_cells(),
                    self.buildings == old(self).buildings,
                    self.entities == old(self).entities,
                    0 <= b.tw <= 1000,
                    0 <= b.th <= 1000,
                    -1000 <= b.tx <= 1000,
                    -1000 <= b.ty <= 1000,
                    0 <= dy < b.th,
                    0 <= dx <= b.tw,
                    forall|a: int, c: int|
                        in_grid(a, c) ==> #[trigger] grid_get(self.tiles@, a, c) == if c - b.ty < dy
                            || (c - b.ty == dy && a - b.tx < dx) {
                            building_over(grid_get(start, a, c), a, c, b.tx as int, b.ty as int, b.tw as int, b.th as int)
                        } else {
                            grid_get(start, a, c)
                        },
                decreases b.tw - dx,
            {
                let tx = b.tx + dx;
                let ty = b.ty + dy;
                let on_perimeter = dx == 0 || dy == 0 || dx == b.tw - 1 || dy == b.th - 1;
                // Door gap: bottom-center, 2 tiles wide.
                let door = dy == b.th - 1 && (dx == b.tw / 2 || dx == b.tw / 2 - 1);
                let kind = if on_perimeter && !door {
                    TileKind::BuildingWall
                } else {
                    TileKind::BuildingFloor
                };
                self.set_tile(tx, ty, kind);
                dx = dx + 1;
            }
            dy = dy + 1;
        }
    }

    /// Generates the wild: the roads, sixteen forests, two lakes with their
    /// beaches and ten buildings, each with its containers; nothing planted
    /// yet.
    pub fn generate() -> (r: World)
        ensures
            r.wf(),
            wild_laid(r.tiles@, |x: int, y: int| world_kind(x, y)),
            r.entities@.len() == 0,
            r.buildings@.len() == 10,
            forall|i: int|
                0 <= i < 10 ==> {
                    let b = #[trigger] r.buildings@[i];
                    let spec_b = building_spec(i);
                    &&& b.kind == spec_b.0
                    &&& b.tx as int == spec_b.1
                    &&& b.ty as int == spec_b.2
                    &&& (b.tw, b.th) == building_size(b.kind)
                    &&& b@.label == building_label(b.kind)
                    &&& (boxes_view(b.containers@) == building_boxes(b.kind, spec_b.1, spec_b.2, true)
                        || boxes_view(b.containers@) == building_boxes(b.kind, spec_b.1, spec_b.2, false))
                },
    {
        let mut world = World {
            tiles: vec![TileKind::Grass; MAP_W * MAP_H],
            buildings: Vec::new(),
            entities: Vec::new(),
        };
        let road_cx: i32 = (MAP_W / 2) as i32;
        let road_cy: i32 = (MAP_H / 2) as i32;
        // Roads: horizontal and vertical through the middle.
        paint_rect(&mut world.tiles, 0, road_cy - 1, MAP_W as i32 - 1, road_cy + 1, TileKind::Road);
        paint_rect(&mut world.tiles, road_cx - 1, 0, road_cx + 1, MAP_H as i32 - 1, TileKind::Road);
        // Branch roads, westward and eastward from the intersection.
        paint_rect(&mut world.tiles, road_cx - 25, road_cy - 15, road_cx - 9, road_cy - 14, TileKind::Road);
        paint_rect(&mut world.tiles, road_cx - 25, road_cy - 15, road_cx - 24, road_cy - 1, TileKind::Road);
        paint_rect(&mut world.tiles, road_cx + 8, road_cy + 15, road_cx + 27, road_cy + 16, TileKind::Road);
        paint_rect(&mut world.tiles, road_cx + 28, road_cy, road_cx + 29, road_cy + 15, TileKind::Road);
        // Forest clusters.
        let mut i: usize = 0;
        while i < 16
            invariant
                world.wf(),
                world.buildings@.len() == 0,
                world.entities@.len() == 0,
                i <= 16,
                forall|x: int, y: int|
                    in_grid(x, y) ==> #[trigger] grid_get(world.tiles@, x, y) == forested(i as int, x, y),
            decreases 16 - i,
        {
            let (fx, fy, r) = forest_center_at(i);
            plant_forest(&mut world.tiles, fx, fy, r);
            i = i + 1;
        }
        // Lakes.
        let mut i: usize = 0;
        while i < 2
            invariant
                world.wf(),
                world.buildings@.len() == 0,
                world.entities@.len() == 0,
                i <= 2,
                forall|x: int, y: int|
                    in_grid(x, y) ==> #[trigger] grid_get(world.tiles@, x, y) == flooded(i as int, x, y),
            decreases 2 - i,
        {
            let (lx, ly, r) = lake_at(i);
            fill_lake(&mut world.tiles, lx, ly, r);
            i = i + 1;
        }
        // Buildings.
        let mut i: usize = 0;
        while i < 10
            invariant
                world.wf(),
                world.buildings@.len() == i,
                world.entities@.len() == 0,
                i <= 10,
                forall|x: int, y: int|
                    in_grid(x, y) ==> #[trigger] grid_get(world.tiles@, x, y) == settled(i as int, x, y),
                forall|j: int|
                    0 <= j < i ==> {
                        let b = #[trigger] world.buildings@[j];
                        let spec_b = building_spec(j);
                        &&& b.kind == spec_b.0
                        &&& b.tx as int == spec_b.1
                        &&& b.ty as int == spec_b.2
                        &&& (b.tw, b.th) == building_size(b.kind)
                        &&& b@.label == building_label(b.kind)
                        &&& (boxes_view(b.containers@) == building_boxes(b.kind, spec_b.1, spec_b.2, true)
                            || boxes_view(b.containers@) == building_boxes(b.kind, spec_b.1, spec_b.2, false))
                    },
            decreases 10 - i,
        {
            let (kind, btx, bty) = building_spec_at(i);
            let b = Building::new(kind, btx, bty);
            world.place_building_tiles(&b);
            world.buildings.push(b);
            i = i + 1;
        }
        world
    }

    /// Plants a harvestable thing in the middle of tile (tx, ty) if it is
    /// grass, of the kind a draw of `kind_roll` out of ten gives.
    pub fn plant_entity_rolled(&mut self, tx: i32, ty: i32, kind_roll: u32)
        requires
            old(self).wf(),
        ensures
            final(self).wf(),
            final(self).tiles == old(self).tiles,
            final(self).buildings == old(self).buildings,
            old(self).kind_at(tx as int, ty as int) == TileKind::Grass ==> {
                &&& final(self).entities@.len() == old(self).entities@.len() + 1
                &&& final(self).entities@.take(old(self).entities@.len() as int) == old(self).entities@
                &&& final(self).entities@.last().kind == planted_kind(kind_roll)
                &&& (kind_roll < 4 ==> final(self).entities@.last().kind == EntityKind::Tree)
                &&& (4 <= kind_roll < 7 ==> final(self).entities@.last().kind == EntityKind::Rock)
                &&& (7 <= kind_roll ==> final(self).entities@.last().kind == EntityKind::Bush)
                &&& final(self).entities@.last().pos == ((32 * tx + 16) as i64, (32 * ty + 16) as i64)
                &&& final(self).entities@.last().health == crate::entities::entity_health(planted_kind(kind_roll))
                &&& final(self).entities@.last().alive
            },
            old(self).kind_at(tx as int, ty as int) != TileKind::Grass ==> final(self).entities
                == old(self).entities,
    {
        if self.get_tile(tx, ty) == TileKind::Grass {
            let kind = if kind_roll < 4 {
                EntityKind::Tree
            } else if kind_roll < 7 {
                EntityKind::Rock
            } else {
                EntityKind::Bush
            };
            let pos = (tx as i64 * 32 + 16, ty as i64 * 32 + 16);
            self.entities.push(Entity::new(kind, pos));
            assert(self.entities@.take(old(self).entities@.len() as int) =~= old(self).entities@);
        }
    }

    /// Plants a harvestable thing on tile (tx, ty) if it is grass: a tree
    /// four times in ten, a rock three times, a bush three times.
    pub fn plant_entity(&mut self, tx: i32, ty: i32)
        requires
            old(self).wf(),
        ensures
            final(self).wf(),
            final(self).tiles == old(self).tiles,
            final(self).buildings == old(self).buildings,
            old(self).kind_at(tx as int, ty as int) == TileKind::Grass ==> {
                &&& final(self).entities@.len() == old(self).entities@.len() + 1
                &&& final(self).entities@.take(old(self).entities@.len() as int) == old(self).entities@
                &&& final(self).entities@.last().pos == ((32 * tx + 16) as i64, (32 * ty + 16) as i64)
                &&& final(self).entities@.last().health == crate::entities::entity_health(final(self).entities@.last().kind)
                &&& final(self).entities@.last().alive
            },
            old(self).kind_at(tx as int, ty as int) != TileKind::Grass ==> final(self).entities
                == old(self).entities,
    {
        if self.get_tile(tx, ty) == TileKind::Grass {
            let roll = roll_below(10);
            self.plant_entity_rolled(tx, ty, roll);
        }
    }
}

/// A container after a search: emptied and marked searched when it was not
/// searched yet and within reach, else as it was.
pub open spec fn box_searched(c: ContainerView, reached: bool) -> ContainerView {
    if !c.looted && reached {
        ContainerView { items: seq![], looted: true, ..c }
    } else {
        c
    }
}

/// The containers of a building after a search.
pub open spec fn boxes_searched(bs: Seq<ContainerView>, reach: Seq<bool>) -> Seq<ContainerView> {
    Seq::new(bs.len(), |j: int| box_searched(bs[j], reach[j]))
}

/// The items a search takes from the first `n` containers of a building.
pub open spec fn box_items(bs: Seq<ContainerView>, reach: Seq<bool>, n: int) -> Seq<Item>
    decreases n,
{
    if n <= 0 {
        seq![]
    } else {
        box_items(bs, reach, n - 1) + if !bs[n - 1].looted && reach[n - 1] {
            bs[n - 1].items
        } else {
            seq![]
        }
    }
}

/// The items a search takes from the containers of the first `n` buildings.
pub open spec fn building_items(bs: Seq<BuildingView>, reach: Seq<Seq<bool>>, n: int) -> Seq<Item>
    decreases n,
{
    if n <= 0 {
        seq![]
    } else {
        building_items(bs, reach, n - 1) + box_items(
            bs[n - 1].containers,
            reach[n - 1],
            bs[n - 1].containers.len() as int,
        )
    }
}

/// Whether a search can harvest an entity: it stands, is within reach and
/// is a bush or the searcher carries an axe.
pub open spec fn harvestable(e: Entity, reached: bool, has_axe: bool) -> bool {
    e.alive && reached && (has_axe || e.kind == EntityKind::Bush)
}

/// An entity after a blow.
pub open spec fn hit(e: Entity) -> Entity {
    Entity { health: (e.health - 1) as i32, alive: e.health - 1 > 0, ..e }
}

/// What a blow at an entity yields: its loot when used up, else one item.
pub open spec fn blow_yield(e: Entity) -> Seq<Item> {
    if e.health - 1 <= 0 {
        entity_loot(e.kind)
    } else {
        seq![entity_yield(e.kind)]
    }
}

/// `j` is the first entity a search can harvest.
pub open spec fn first_harvestable(es: Seq<Entity>, reach: Seq<bool>, has_axe: bool, j: int) -> bool {
    &&& 0 <= j < es.len()
    &&& harvestable(es[j], reach[j], has_axe)
    &&& forall|k: int| 0 <= k < j ==> !harvestable(#[trigger] es[k], reach[k], has_axe)
}

impl World {
    /// Searches the wild around the survivor: every container not searched
    /// yet whose entry in `box_reach` is true hands over its items and is
    /// marked searched; then the first standing entity within reach that
    /// can be harvested (a bush, or anything with an axe) takes one blow,
    /// yielding one item, or its loot when the blow uses it up.
    pub fn interact_near(&mut self, box_reach: &Vec<Vec<bool>>, entity_reach: &Vec<bool>, has_axe: bool) -> (items: Vec<Item>)
        requires
            box_reach@.len() == old(self).buildings@.len(),
            forall|i: int|
                0 <= i < box_reach@.len() ==> (#[trigger] box_reach@[i])@.len()
                    == old(self).buildings@[i].containers@.len(),
            entity_reach@.len() == old(self).entities@.len(),
            forall|i: int|
                0 <= i < old(self).entities@.len() ==> (#[trigger] old(self).entities@[i]).health
                    > i32::MIN,
        ensures
            final(self).tiles == old(self).tiles,
            final(self).buildings@.len() == old(self).buildings@.len(),
            forall|i: int|
                0 <= i < old(self).buildings@.len() ==> #[trigger] final(self).buildings@[i]@ == (
                BuildingView {
                    containers: boxes_searched(old(self).buildings@[i]@.containers, box_reach@[i]@),
                    ..old(self).buildings@[i]@
                }),
            (exists|j: int| first_harvestable(old(self).entities@, entity_reach@, has_axe, j)) ==> {
                let j = choose|j: int| first_harvestable(old(self).entities@, entity_reach@, has_axe, j);
                &&& final(self).entities@ == old(self).entities@.update(j, hit(old(self).entities@[j]))
                &&& items@ == building_items(
                    old(self).buildings@.map_values(|b: Building| b@),
                    box_reach@.map_values(|r: Vec<bool>| r@),
                    old(self).buildings@.len() as int,
                ) + blow_yield(old(self).entities@[j])
            },
            !has_axe ==> forall|i: int|
                0 <= i < old(self).entities@.len() && old(self).entities@[i].kind != EntityKind::Bush
                    ==> #[trigger] final(self).entities@[i] == old(self).entities@[i],
            !has_axe ==> forall|j: int|
                #[trigger] first_harvestable(old(self).entities@, entity_reach@, has_axe, j)
                    ==> old(self).entities@[j].kind == EntityKind::Bush,
            !(exists|j: int| first_harvestable(old(self).entities@, entity_reach@, has_axe, j)) ==> {
                &&& final(self).entities@ == old(self).entities@
                &&& items@ == building_items(
                    old(self).buildings@.map_values(|b: Building| b@),
                    box_reach@.map_values(|r: Vec<bool>| r@),
                    old(self).buildings@.len() as int,
                )
            },
    {
        let mut items: Vec<Item> = Vec::new();
        let ghost bviews = self.buildings@.map_values(|b: Building| b@);
        let ghost reach = box_reach@.map_values(|r: Vec<bool>| r@);
        let mut bi: usize = 0;
        while bi < self.buildings.len()
            invariant
                self.tiles == old(self).tiles,
                self.entities == old(self).entities,
                self.buildings@.len() == old(self).buildings@.len(),
                box_reach@.len() == old(self).buildings@.len(),
                forall|i: int|
                    0 <= i < box_reach@.len() ==> (#[trigger] box_reach@[i])@.len()
                        == old(self).buildings@[i].containers@.len(),
                bviews == old(self).buildings@.map_values(|b: Building| b@),
                reach == box_reach@.map_values(|r: Vec<bool>| r@),
                bi <= self.buildings@.len(),
                items@ == building_items(bviews, reach, bi as int),
                forall|i: int|
                    0 <= i < self.buildings@.len() ==> #[trigger] self.buildings@[i]@ == if i < bi {
                        BuildingView { containers: boxes_searched(bviews[i].containers, reach[i]), ..bviews[i] }
                    } else {
                        bviews[i]
                    },
            decreases self.buildings@.len() - bi,
        {
            let mut b = Building {
                kind: BuildingKind::Forrad,
                tx: 0,
                ty: 0,
                tw: 0,
                th: 0,
                containers: Vec::new(),
                label: "",
            };
            self.buildings.set_and_swap(bi, &mut b);
            assert(b@ == bviews[bi as int]);
            let r = &box_reach[bi];
            assert(r@ == reach[bi as int]);
            let ghost items0 = items@;
            let mut ci: usize = 0;
            while ci < b.containers.len()
                invariant
                    b@.kind == bviews[bi as int].kind,
                    b@.tx == bviews[bi as int].tx,
                    b@.ty == bviews[bi as int].ty,
                    b@.tw == bviews[bi as int].tw,
                    b@.th == bviews[bi as int].th,
                    b@.label == bviews[bi as int].label,
                    b.containers@.len() == bviews[bi as int].containers.len(),
                    r@.len() == b.containers@.len(),
                    r@ == reach[bi as int],
                    ci <= b.containers@.len(),
                    items@ == items0 + box_items(bviews[bi as int].containers, r@, ci as int),
                    forall|j: int|
                        0 <= j < b.containers@.len() ==> #[trigger] b.containers@[j]@ == if j < ci {
                            box_searched(bviews[bi as int].containers[j], r@[j])
                        } else {
                            bviews[bi as int].containers[j]
                        },
                decreases b.containers@.len() - ci,
            {
                assert(b.containers@[ci as int]@ == bviews[bi as int].containers[ci as int]);
                if !b.containers[ci].looted && r[ci] {
                    let mut c = LootContainer::new((0, 0), Vec::new(), "");
                    b.containers.set_and_swap(ci, &mut c);
                    items.append(&mut c.items);
                    c.looted = true;
                    b.containers.set_and_swap(ci, &mut c);
                }
                proof {
                    assert(items@ =~= items0 + box_items(bviews[bi as int].containers, r@, ci as int + 1));
                }
                ci = ci + 1;
            }
            proof {
                assert(b@.containers =~= boxes_searched(bviews[bi as int].containers, reach[bi as int]));
                assert(items@ =~= building_items(bviews, reach, bi as int + 1));
            }
            self.buildings.set_and_swap(bi, &mut b);
            bi = bi + 1;
        }
        let ghost es = self.entities@;
        let ghost bs_after = self.buildings@;
        let mut ei: usize = 0;
        while ei < self.entities.len()
            invariant
                self.tiles == old(self).tiles,
                self.buildings@ == bs_after,
                bs_after.len() == old(self).buildings@.len(),
                box_reach@.len() == old(self).buildings@.len(),
                forall|i: int|
                    0 <= i < bs_after.len() ==> #[trigger] bs_after[i]@ == (BuildingView {
                        containers: boxes_searched(bviews[i].containers, reach[i]),
                        ..bviews[i]
                    }),
                bviews == old(self).buildings@.map_values(|b: Building| b@),
                reach == box_reach@.map_values(|r: Vec<bool>| r@),
                items@ == building_items(bviews, reach, bviews.len() as int),
                es == old(self).entities@,
                self.entities@ == es,
                entity_reach@.len() == es.len(),
                ei <= es.len(),
                forall|k: int| 0 <= k < ei ==> !harvestable(#[trigger] es[k], entity_reach@[k], has_axe),
                forall|i: int| 0 <= i < es.len() ==> (#[trigger] es[i]).health > i32::MIN,
            decreases es.len() - ei,
        {
            let e = &self.entities[ei];
            if e.alive && entity_reach[ei] && (has_axe || matches!(e.kind, EntityKind::Bush)) {
                let mut hurt = Entity { kind: e.kind, pos: e.pos, health: e.health - 1, alive: e.alive };
                if hurt.health <= 0 {
                    hurt.alive = false;
                    let mut l = hurt.loot();
                    items.append(&mut l);
                } else {
                    items.push(hurt.harvest_item());
                }
                self.entities.set(ei, hurt);
                proof {
                    assert(first_harvestable(es, entity_reach@, has_axe, ei as int));
                    assert forall|i: int| 0 <= i < old(self).buildings@.len() implies #[trigger] self.buildings@[i]@ == (
                        BuildingView {
                            containers: boxes_searched(old(self).buildings@[i]@.containers, box_reach@[i]@),
                            ..old(self).buildings@[i]@
                        }) by {
                        assert(bviews[i] == old(self).buildings@[i]@);
                        assert(reach[i] == box_reach@[i]@);
                        assert(bs_after[i]@ == self.buildings@[i]@);
                    }
                    let j = choose|j: int| first_harvestable(es, entity_reach@, has_axe, j);
                    assert(j == ei as int) by {
                        if j < ei {
                            assert(!harvestable(es[j], entity_reach@[j], has_axe));
                        } else if j > ei {
                            assert(!harvestable(es[ei as int], entity_reach@[ei as int], has_axe));
                        }
                    }
                }
                return items;
            }
            ei = ei + 1;
        }
        items
    }
}

} // verus!
