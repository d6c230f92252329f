use vstd::prelude::*;
use crate::camera::{MAP_W, MAP_H};
use crate::loot::LootSpot;

verus! {

/// What a tile of the map is made of.
#[derive(Clone, Copy, PartialEq, Eq, Structural, Debug)]
pub enum TileKind {
    Grass,
    Pavement,
    Road,
    WoodFloor,
    ConcreteFloor,
    ExtWall,
    IntWall,
    ClosedDoor,
    OpenDoor,
    Window,
    BrokenWindow,
    Rubble,
}

/// The kinds that block movement: walls, closed doors and whole windows.
pub open spec fn solid_kind(k: TileKind) -> bool {
    k == TileKind::ExtWall || k == TileKind::IntWall || k == TileKind::ClosedDoor
        || k == TileKind::Window
}

/// The kinds that slow a walker down and make footsteps louder.
pub open spec fn slow_kind(k: TileKind) -> bool {
    k == TileKind::Rubble || k == TileKind::Grass
}

/// The column of the tile sheet that draws a kind.
pub open spec fn sprite_col_of(k: TileKind) -> u32 {
    match k {
        TileKind::Grass => 0,
        TileKind::Pavement => 1,
        TileKind::Road => 2,
        TileKind::WoodFloor => 3,
        TileKind::ConcreteFloor | TileKind::OpenDoor => 6,
        TileKind::ExtWall | TileKind::IntWall | TileKind::ClosedDoor | TileKind::Window
        | TileKind::BrokenWindow => 4,
        TileKind::Rubble => 5,
    }
}

impl TileKind {
    /// Whether the tile blocks movement.
    pub fn is_solid(self) -> (r: bool)
        ensures
            r == solid_kind(self),
    {
        matches!(self, TileKind::ExtWall | TileKind::IntWall | TileKind::ClosedDoor | TileKind::Window)
    }

    /// Whether the tile slows movement down.
    pub fn is_slow(self) -> (r: bool)
        ensures
            r == slow_kind(self),
    {
        matches!(self, TileKind::Rubble | TileKind::Grass)
    }

    /// The column of the tile sheet that draws this kind.
    pub fn sprite_col(self) -> (r: u32)
        ensures
            r == sprite_col_of(self),
    {
        match self {
            TileKind::Grass => 0,
            TileKind::Pavement => 1,
            TileKind::Road => 2,
            TileKind::WoodFloor => 3,
            TileKind::ConcreteFloor | TileKind::OpenDoor => 6,
            TileKind::ExtWall | TileKind::IntWall | TileKind::ClosedDoor | TileKind::Window
            | TileKind::BrokenWindow => 4,
            TileKind::Rubble => 5,
        }
    }
}

/// One tile of the map: its kind and how much blood covers it, in hundredths
/// (0 is clean, 100 fully covered).
#[derive(Clone, Copy, PartialEq, Eq, Structural, Debug)]
pub struct MapTile {
    pub kind: TileKind,
    pub blood: u8,
}

/// A clean tile of the given kind.
pub open spec fn fresh(k: TileKind) -> MapTile {
    MapTile { kind: k, blood: 0 }
}

impl MapTile {
    fn new(kind: TileKind) -> (r: MapTile)
        ensures
            r == fresh(kind),
    {
        MapTile { kind, blood: 0 }
    }
}

/// Whether (x, y) lies on the grid.
pub open spec fn in_grid(x: int, y: int) -> bool {
    0 <= x < MAP_W as int && 0 <= y < MAP_H as int
}

/// The index of (x, y) in the row-major tile vector.
pub open spec fn cell(x: int, y: int) -> int {
    y * MAP_W as int + x
}

/// The number of tiles of the grid.
pub open spec fn n_cells() -> int {
    MAP_W as int * MAP_H as int
}

/// The element of a row-major grid vector at (x, y).
pub open spec fn grid_get<T>(s: Seq<T>, x: int, y: int) -> T {
    s[cell(x, y)]
}

/// `v` written over the rectangle [x0, x1] x [y0, y1] of a grid vector,
/// the rest of `old` kept.
pub open spec fn painted_with<T>(old: Seq<T>, new: Seq<T>, x0: int, y0: int, x1: int, y1: int, v: T) -> bool {
    &&& new.len() == old.len()
    &&& forall|x: int, y: int|
        in_grid(x, y) ==> #[trigger] grid_get(new, x, y) == if x0 <= x <= x1 && y0 <= y <= y1 {
            v
        } else {
            grid_get(old, x, y)
        }
}

/// Clean tiles of kind `k` painted over the rectangle [x0, x1] x [y0, y1],
/// the rest of `old` kept: what `fill` leaves.
pub open spec fn painted(old: Seq<MapTile>, new: Seq<MapTile>, x0: int, y0: int, x1: int, y1: int, k: TileKind) -> bool {
    painted_with(old, new, x0, y0, x1, y1, fresh(k))
}

/// Distinct tiles of the grid have distinct indices.
pub proof fn lemma_cell_inj(a: int, b: int, x: int, y: int)
    requires
        in_grid(a, b),
        in_grid(x, y),
        cell(a, b) == cell(x, y),
    ensures
        a == x && b == y,
{
}

/// Tiles of the grid at different places have different indices.
pub proof fn lemma_cells_apart(a: int, b: int, x: int, y: int)
    ensures
        in_grid(a, b) && in_grid(x, y) && !(a == x && b == y) ==> cell(a, b) != cell(x, y),
{
    if in_grid(a, b) && in_grid(x, y) && cell(a, b) == cell(x, y) {
        lemma_cell_inj(a, b, x, y);
    }
}

pub(crate) fn idx(x: i32, y: i32) -> (r: usize)
    requires
        in_grid(x as int, y as int),
    ensures
        r as int == cell(x as int, y as int),
{
    y as usize * MAP_W + x as usize
}

pub(crate) fn in_bounds(x: i32, y: i32) -> (r: bool)
    ensures
        r == in_grid(x as int, y as int),
{
    x >= 0 && y >= 0 && x < MAP_W as i32 && y < MAP_H as i32
}

/// Writes `v` at (x, y), if (x, y) is on the grid.
pub(crate) fn put<T: Copy>(tiles: &mut Vec<T>, x: i32, y: i32, v: T)
    requires
        old(tiles)@.len() == n_cells(),
    ensures
        final(tiles)@ == if in_grid(x as int, y as int) {
            old(tiles)@.update(cell(x as int, y as int), v)
        } else {
            old(tiles)@
        },
        painted_with(old(tiles)@, final(tiles)@, x as int, y as int, x as int, y as int, v),
{
    if in_bounds(x, y) {
        tiles.set(idx(x, y), v);
    }
    proof {
        assert forall|a: int, b: int| in_grid(a, b) && !(a == x && b == y) implies #[trigger] grid_get(
            final(tiles)@,
            a,
            b,
        ) == grid_get(old(tiles)@, a, b) by {
            if in_grid(x as int, y as int) && cell(a, b) == cell(x as int, y as int) {
                lemma_cell_inj(a, b, x as int, y as int);
            }
        }
    }
}

pub(crate) fn set(tiles: &mut Vec<MapTile>, x: i32, y: i32, k: TileKind)
    requires
        old(tiles)@.len() == n_cells(),
    ensures
        final(tiles)@ == if in_grid(x as int, y as int) {
            old(tiles)@.update(cell(x as int, y as int), fresh(k))
        } else {
            old(tiles)@
        },
        painted(old(tiles)@, final(tiles)@, x as int, y as int, x as int, y as int, k),
{
    put(tiles, x, y, MapTile::new(k));
}

/// Writes `v` over the part of the rectangle [x0, x1] x [y0, y1] that lies
/// on the grid.
pub(crate) fn paint_rect<T: Copy>(tiles: &mut Vec<T>, x0: i32, y0: i32, x1: i32, y1: i32, v: T)
    requires
        old(tiles)@.len() == n_cells(),
    ensures
        painted_with(old(tiles)@, final(tiles)@, x0 as int, y0 as int, x1 as int, y1 as int, v),
{
    // Only the part of the rectangle that lies on the grid changes.
    let ya: i32 = if y0 < 0 { 0 } else { y0 };
    let yb: i32 = if y1 > MAP_H as i32 - 1 { MAP_H as i32 - 1 } else { y1 };
    let xa: i32 = if x0 < 0 { 0 } else { x0 };
    let xb: i32 = if x1 > MAP_W as i32 - 1 { MAP_W as i32 - 1 } else { x1 };
    let ghost start = tiles@;
    let mut y: i32 = ya;
    while y <= yb
        invariant
            tiles@.len() == n_cells(),
            start.len() == n_cells(),
            ya <= y,
            y <= yb + 1 || y == ya,
            ya as int == if y0 < 0 { 0 } else { y0 as int },
            yb as int == if y1 > 35 { 35 } else { y1 as int },
            xa as int == if x0 < 0 { 0 } else { x0 as int },
            xb as int == if x1 > 35 { 35 } else { x1 as int },
            forall|a: int, b: int|
                in_grid(a, b) ==> #[trigger] grid_get(tiles@, a, b) == if x0 <= a <= x1 && y0 <= b
                    && b < y && b <= y1 {
                    v
                } else {
                    grid_get(start, a, b)
                },
        decreases yb + 1 - y,
    {
        let mut x: i32 = xa;
        while x <= xb
            invariant
                tiles@.len() == n_cells(),
                start.len() == n_cells(),
                ya <= y <= yb,
                xa <= x,
                x <= xb + 1 || x == xa,
                yb as int == if y1 > 35 { 35 } else { y1 as int },
                ya as int == if y0 < 0 { 0 } else { y0 as int },
                xa as int == if x0 < 0 { 0 } else { x0 as int },
                xb as int == if x1 > 35 { 35 } else { x1 as int },
                forall|a: int, b: int|
                    in_grid(a, b) ==> #[trigger] grid_get(tiles@, a, b) == if x0 <= a <= x1 && y0
                        <= b && b <= y1 && (b < y || (b == y && a < x)) {
                        v
                    } else {
                        grid_get(start, a, b)
                    },
            decreases xb + 1 - x,
        {
            let ghost before = tiles@;
            put(tiles, x, y, v);
            proof {
                assert forall|a: int, b: int| in_grid(a, b) && !(a == x && b == y) implies #[trigger] grid_get(tiles@, a, b) == grid_get(before, a, b) by {
                    if cell(a, b) == cell(x as int, y as int) {
                        lemma_cell_inj(a, b, x as int, y as int);
                    }
                }
            }
            x = x + 1;
        }
        y = y + 1;
    }
}

pub(crate) fn fill(tiles: &mut Vec<MapTile>, x0: i32, y0: i32, x1: i32, y1: i32, k: TileKind)
    requires
        old(tiles)@.len() == n_cells(),
    ensures
        painted(old(tiles)@, final(tiles)@, x0 as int, y0 as int, x1 as int, y1 as int, k),
{
    paint_rect(tiles, x0, y0, x1, y1, MapTile::new(k));
}

/// A rectangular room of `w` x `h` tiles with corner (x0, y0): walls of kind
/// `wall` on its border, floor of kind `floor` inside, what `place_room`
/// paints over `old`.
pub open spec fn room_over(old: TileKind, x0: int, y0: int, w: int, h: int, floor: TileKind, wall: TileKind, x: int, y: int) -> TileKind {
    if x0 <= x < x0 + w && y0 <= y < y0 + h {
        if x == x0 || x == x0 + w - 1 || y == y0 || y == y0 + h - 1 {
            wall
        } else {
            floor
        }
    } else {
        old
    }
}

pub(crate) fn place_room(tiles: &mut Vec<MapTile>, x0: i32, y0: i32, w: i32, h: i32, floor: TileKind, wall: TileKind)
    requires
        old(tiles)@.len() == n_cells(),
        1 <= w <= 1000,
        1 <= h <= 1000,
        -1000 <= x0 <= 1000,
        -1000 <= y0 <= 1000,
    ensures
        final(tiles)@.len() == n_cells(),
        forall|x: int, y: int|
            in_grid(x, y) ==> #[trigger] grid_get(final(tiles)@, x, y) == if x0 <= x < x0 + w && y0
                <= y < y0 + h {
                fresh(room_over(TileKind::Grass, x0 as int, y0 as int, w as int, h as int, floor, wall, x, y))
            } else {
                grid_get(old(tiles)@, x, y)
            },
{
    fill(tiles, x0, y0, x0 + w - 1, y0 + h - 1, floor);
    fill(tiles, x0, y0, x0 + w - 1, y0, wall);
    fill(tiles, x0, y0 + h - 1, x0 + w - 1, y0 + h - 1, wall);
    fill(tiles, x0, y0, x0, y0 + h - 1, wall);
    fill(tiles, x0 + w - 1, y0, x0 + w - 1, y0 + h - 1, wall);
}

/// The map: a row-major grid of `MAP_W` x `MAP_H` tiles, the loot lying on
/// it and the tile to reach with the car keys.
pub struct GameMap {
    pub tiles: Vec<MapTile>,
    pub loot: Vec<LootSpot>,
    pub escape_tile: (i32, i32),
}

/// The tiles after tile (x, y), if it is on the grid and of kind `from`,
/// turned into kind `to`, its blood kept: a door opened or a window broken.
pub open spec fn turned(tiles: Seq<MapTile>, x: int, y: int, from: TileKind, to: TileKind) -> Seq<MapTile> {
    if in_grid(x, y) && tiles[cell(x, y)].kind == from {
        tiles.update(cell(x, y), MapTile { kind: to, ..tiles[cell(x, y)] })
    } else {
        tiles
    }
}

/// What a path search reports.
pub enum PathPlan {
    /// The start and the goal are the same tile.
    Arrived,
    /// The goal is off the map or solid.
    Blocked,
    /// No walk leads from the start to the goal.
    Unreachable,
    /// The tiles to step on, in order; the goal is the last, the start is not among them.
    Route(Vec<(i32, i32)>),
}

impl GameMap {
    /// The grid has one tile per cell and no tile holds more than full blood.
    pub open spec fn wf(&self) -> bool {
        &&& self.tiles@.len() == n_cells()
        &&& forall|i: int| 0 <= i < n_cells() ==> #[trigger] self.tiles@[i].blood <= 100
    }

    /// The kind of tile (x, y); off the map every tile is an outer wall.
    pub open spec fn kind_at(&self, x: int, y: int) -> TileKind {
        if in_grid(x, y) {
            self.tiles@[cell(x, y)].kind
        } else {
            TileKind::ExtWall
        }
    }

    pub open spec fn solid_at(&self, x: int, y: int) -> bool {
        solid_kind(self.kind_at(x, y))
    }

    /// One step of a walker from (ax, ay) to (bx, by): to one of the eight
    /// neighbouring tiles, which is on the map and not solid, and never
    /// diagonally between two solid tiles.
    pub open spec fn legal_step(&self, ax: int, ay: int, bx: int, by: int) -> bool {
        let dx = bx - ax;
        let dy = by - ay;
        &&& -1 <= dx <= 1
        &&& -1 <= dy <= 1
        &&& (dx != 0 || dy != 0)
        &&& in_grid(bx, by)
        &&& !self.solid_at(bx, by)
        &&& !(dx != 0 && dy != 0 && self.solid_at(ax + dx, ay) && self.solid_at(ax, ay + dy))
    }

    /// `path` is a sequence of legal steps that starts from (sx, sy).
    pub open spec fn is_walk(&self, sx: int, sy: int, path: Seq<(i32, i32)>) -> bool {
        forall|i: int|
            #![trigger path[i]]
            0 <= i < path.len() ==> self.legal_step(
                if i == 0 { sx } else { path[i - 1].0 as int },
                if i == 0 { sy } else { path[i - 1].1 as int },
                path[i].0 as int,
                path[i].1 as int,
            )
    }

    /// Some walk leads from (sx, sy) to (ex, ey).
    pub open spec fn reaches(&self, sx: int, sy: int, ex: int, ey: int) -> bool {
        exists|path: Seq<(i32, i32)>|
            #![trigger self.is_walk(sx, sy, path)]
            path.len() > 0 && self.is_walk(sx, sy, path) && path.last().0 == ex && path.last().1 == ey
    }

    fn tile(&self, x: i32, y: i32) -> (r: TileKind)
        requires
            self.wf(),
        ensures
            r == self.kind_at(x as int, y as int),
    {
        if !in_bounds(x, y) {
            return TileKind::ExtWall;
        }
        self.tiles[idx(x, y)].kind
    }

    /// Whether tile (x, y) blocks movement; off the map every tile does.
    pub fn is_solid(&self, x: i32, y: i32) -> (r: bool)
        requires
            self.wf(),
        ensures
            r == self.solid_at(x as int, y as int),
    {
        self.tile(x, y).is_solid()
    }

    /// The kind of tile (x, y); off the map, an outer wall.
    pub fn tile_kind(&self, x: i32, y: i32) -> (r: TileKind)
        requires
            self.wf(),
        ensures
            r == self.kind_at(x as int, y as int),
    {
        self.tile(x, y)
    }

    /// Opens the door at (x, y), if a closed door stands there.
    pub fn open_door(&mut self, x: i32, y: i32)
        requires
            old(self).wf(),
        ensures
            final(self).wf(),
            final(self).loot == old(self).loot,
            final(self).escape_tile == old(self).escape_tile,
            final(self).tiles@ == turned(old(self).tiles@, x as int, y as int, TileKind::ClosedDoor, TileKind::OpenDoor),
    {
        if in_bounds(x, y) && self.tiles[idx(x, y)].kind == TileKind::ClosedDoor {
            let i = idx(x, y);
            let mut t = self.tiles[i];
            t.kind = TileKind::OpenDoor;
            self.tiles.set(i, t);
        }
    }

    /// Breaks the window at (x, y), if a whole window stands there.
    pub fn break_window(&mut self, x: i32, y: i32)
        requires
            old(self).wf(),
        ensures
            final(self).wf(),
            final(self).loot == old(self).loot,
            final(self).escape_tile == old(self).escape_tile,
            final(self).tiles@ == turned(old(self).tiles@, x as int, y as int, TileKind::Window, TileKind::BrokenWindow),
    {
        if in_bounds(x, y) && self.tiles[idx(x, y)].kind == TileKind::Window {
            let i = idx(x, y);
            let mut t = self.tiles[i];
            t.kind = TileKind::BrokenWindow;
            self.tiles.set(i, t);
        }
    }

    /// Splashes blood on tile (x, y): 45 hundredths more, up to full cover.
    pub fn splat_blood(&mut self, x: i32, y: i32)
        requires
            old(self).wf(),
        ensures
            final(self).wf(),
            final(self).loot == old(self).loot,
            final(self).escape_tile == old(self).escape_tile,
            final(self).tiles@ == if in_grid(x as int, y as int) {
                old(self).tiles@.update(
                    cell(x as int, y as int),
                    MapTile {
                        blood: if old(self).tiles@[cell(x as int, y as int)].blood + 45 > 100 {
                            100
                        } else {
                            (old(self).tiles@[cell(x as int, y as int)].blood + 45) as u8
                        },
                        ..old(self).tiles@[cell(x as int, y as int)]
                    },
                )
            } else {
                old(self).tiles@
            },
    {
        if in_bounds(x, y) {
            let i = idx(x, y);
            let mut t = self.tiles[i];
            t.blood = if t.blood > 55 { 100 } else { t.blood + 45 };
            self.tiles.set(i, t);
        }
    }
}

} // verus!
