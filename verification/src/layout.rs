use vstd::prelude::*;
use crate::camera::{MAP_W, MAP_H};
use crate::loot::{Item, LootSpot, LootSpotView};
use crate::map::{
    GameMap, MapTile, TileKind, fill, fresh, grid_get, in_grid, n_cells, place_room, room_over,
};

verus! {

/// Two roads, each two tiles wide, cross the map at columns 16-17 and rows
/// 16-17; pavement lines them on columns 15 and 18 and rows 15 and 18.
pub open spec fn street_kind(x: int, y: int) -> TileKind {
    if x == 16 || x == 17 || y == 16 || y == 17 {
        TileKind::Road
    } else if x == 15 || x == 18 || y == 15 || y == 18 {
        TileKind::Pavement
    } else {
        TileKind::Grass
    }
}

/// The safe house in the north-west, cols 1-12 and rows 1-12: wooden floor,
/// a partition on row 7 with a door, a south door, four windows and a paved
/// path towards the road.
pub open spec fn safe_house_kind(x: int, y: int) -> Option<TileKind> {
    if 13 <= x <= 14 && 11 <= y <= 12 {
        Some(TileKind::Pavement)
    } else if (x == 12 && y == 9) || (x == 1 && y == 5) || (x == 8 && y == 1) || (x == 5 && y == 1) {
        Some(TileKind::Window)
    } else if (x == 6 && y == 12) || (x == 6 && y == 7) {
        Some(TileKind::ClosedDoor)
    } else if y == 7 && 2 <= x <= 11 {
        Some(TileKind::IntWall)
    } else if 1 <= x <= 12 && 1 <= y <= 12 {
        Some(room_over(TileKind::Grass, 1, 1, 12, 12, TileKind::WoodFloor, TileKind::ExtWall, x, y))
    } else {
        None
    }
}

/// The store in the north-east, cols 20-33 and rows 1-11: concrete floor,
/// a storage partition on row 7 with a door, a counter on row 4 with a gap,
/// a south door, three windows and a paved access to the road.
pub open spec fn store_kind(x: int, y: int) -> Option<TileKind> {
    if x == 26 && 12 <= y <= 14 {
        Some(TileKind::Pavement)
    } else if x == 22 && y == 4 {
        Some(TileKind::ConcreteFloor)
    } else if y == 4 && 22 <= x <= 30 {
        Some(TileKind::IntWall)
    } else if (x == 33 && y == 5) || (x == 29 && y == 1) || (x == 23 && y == 1) {
        Some(TileKind::Window)
    } else if (x == 26 && y == 11) || (x == 26 && y == 7) {
        Some(TileKind::ClosedDoor)
    } else if y == 7 && 21 <= x <= 32 {
        Some(TileKind::IntWall)
    } else if 20 <= x <= 33 && 1 <= y <= 11 {
        Some(room_over(TileKind::Grass, 20, 1, 14, 11, TileKind::ConcreteFloor, TileKind::ExtWall, x, y))
    } else {
        None
    }
}

/// The garage in the south-west, cols 1-12 and rows 20-32: concrete floor,
/// a three-tile opening to the south, a side door, two windows and a row of
/// shelves on column 10.
pub open spec fn garage_kind(x: int, y: int) -> Option<TileKind> {
    if x == 10 && 21 <= y <= 26 {
        Some(TileKind::IntWall)
    } else if (x == 1 && y == 25) || (x == 5 && y == 20) {
        Some(TileKind::Window)
    } else if x == 12 && y == 26 {
        Some(TileKind::ClosedDoor)
    } else if 5 <= x <= 7 && y == 32 {
        Some(TileKind::ConcreteFloor)
    } else if 1 <= x <= 12 && 20 <= y <= 32 {
        Some(room_over(TileKind::Grass, 1, 20, 12, 13, TileKind::ConcreteFloor, TileKind::ExtWall, x, y))
    } else {
        None
    }
}

/// The gas station in the south-east, cols 20-33 and rows 20-33: a paved
/// forecourt with two pump islands of rubble and an office, cols 25-33 and
/// rows 20-27, with two doors and two windows.
pub open spec fn gas_station_kind(x: int, y: int) -> Option<TileKind> {
    if 21 <= x <= 22 && (30 <= y <= 31 || 24 <= y <= 25) {
        Some(TileKind::Rubble)
    } else if (x == 30 && y == 20) || (x == 26 && y == 20) {
        Some(TileKind::Window)
    } else if (x == 33 && y == 24) || (x == 29 && y == 27) {
        Some(TileKind::ClosedDoor)
    } else if 25 <= x <= 33 && 20 <= y <= 27 {
        Some(room_over(TileKind::Grass, 25, 20, 9, 8, TileKind::ConcreteFloor, TileKind::ExtWall, x, y))
    } else if 20 <= x <= 33 && 20 <= y <= 33 {
        Some(TileKind::Pavement)
    } else {
        None
    }
}

/// The kind of tile (x, y) of a freshly generated map.
pub open spec fn generated_kind(x: int, y: int) -> TileKind {
    if x == 14 && (14 <= y <= 15 || 18 <= y <= 19) {
        TileKind::Rubble
    } else if x == 0 && (13 <= y <= 14 || 19 <= y <= 20) {
        TileKind::ExtWall
    } else if let Some(k) = gas_station_kind(x, y) {
        k
    } else if let Some(k) = garage_kind(x, y) {
        k
    } else if let Some(k) = store_kind(x, y) {
        k
    } else if let Some(k) = safe_house_kind(x, y) {
        k
    } else {
        street_kind(x, y)
    }
}

/// The loot a freshly generated map holds, in order: three spots in the
/// safe house, three in the store, two in the garage and three at the gas
/// station, the car keys among them.
pub open spec fn generated_loot() -> Seq<LootSpotView> {
    seq![
        LootSpotView { tile: (4, 4), items: seq![Item::Flashlight { battery: 55 }, Item::Bandage], looted: false, label: "Soffbord"@ },
        LootSpotView { tile: (9, 3), items: seq![Item::Food(20), Item::Water(15)], looted: false, label: "Kylskåp"@ },
        LootSpotView { tile: (3, 9), items: seq![Item::Knife, Item::Food(10)], looted: false, label: "Kökslåda"@ },
        LootSpotView { tile: (24, 3), items: seq![Item::Food(35), Item::Food(30), Item::Water(40)], looted: false, label: "Hylla"@ },
        LootSpotView { tile: (29, 3), items: seq![Item::Water(30), Item::Medkit], looted: false, label: "Kyldisk"@ },
        LootSpotView { tile: (25, 9), items: seq![Item::Food(20), Item::Bandage], looted: false, label: "Förråd"@ },
        LootSpotView { tile: (4, 23), items: seq![Item::TireIron, Item::Crowbar], looted: false, label: "Verktygshylla"@ },
        LootSpotView { tile: (7, 28), items: seq![Item::Ammo(12), Item::Bandage], looted: false, label: "Verktygslåda"@ },
        LootSpotView { tile: (27, 22), items: seq![Item::CarKeys], looted: false, label: "Nyckelskåp"@ },
        LootSpotView { tile: (31, 23), items: seq![Item::Pistol, Item::Ammo(9)], looted: false, label: "Kassaskåp"@ },
        LootSpotView { tile: (26, 25), items: seq![Item::Food(15), Item::Water(20)], looted: false, label: "Disk"@ },
    ]
}

/// The tiles of the map all clean, and each of the kind `kind_of` gives.
pub open spec fn laid_out(tiles: Seq<MapTile>, kind_of: spec_fn(int, int) -> TileKind) -> bool {
    &&& tiles.len() == n_cells()
    &&& forall|x: int, y: int| in_grid(x, y) ==> #[trigger] grid_get(tiles, x, y) == fresh(kind_of(x, y))
}

/// Paints the tiles of the rectangle [x0, x1] x [y0, y1] that are grass
/// with fresh pavement.
fn pave_grass(tiles: &mut Vec<MapTile>, x0: i32, y0: i32, x1: i32, y1: i32)
    requires
        old(tiles)@.len() == n_cells(),
        0 <= x0,
        0 <= y0,
        x1 < MAP_W,
        y1 < MAP_H,
    ensures
        final(tiles)@.len() == n_cells(),
        forall|x: int, y: int|
            in_grid(x, y) ==> #[trigger] grid_get(final(tiles)@, x, y) == if x0 <= x <= x1 && y0 <= y
                <= y1 && grid_get(old(tiles)@, x, y).kind == TileKind::Grass {
                fresh(TileKind::Pavement)
            } else {
                grid_get(old(tiles)@, x, y)
            },
{
    let ghost start = tiles@;
    let mut y: i32 = y0;
    while y <= y1
        invariant
            tiles@.len() == n_cells(),
            start.len() == n_cells(),
            0 <= x0,
            0 <= y0 <= y,
            y <= y1 + 1 || y == y0,
            x1 < MAP_W,
            y1 < MAP_H,
            forall|a: int, b: int|
                in_grid(a, b) ==> #[trigger] grid_get(tiles@, a, b) == if x0 <= a <= x1 && y0 <= b
                    < y && grid_get(start, a, b).kind == TileKind::Grass {
                    fresh(TileKind::Pavement)
                } else {
                    grid_get(start, a, b)
                },
        decreases y1 + 1 - y,
    {
        let mut x: i32 = x0;
        while x <= x1
            invariant
                tiles@.len() == n_cells(),
                start.len() == n_cells(),
                0 <= x0 <= x,
                0 <= y0 <= y <= y1,
                x <= x1 + 1 || x == x0,
                x1 < MAP_W,
                y1 < MAP_H,
                forall|a: int, b: int|
                    in_grid(a, b) ==> #[trigger] grid_get(tiles@, a, b) == if x0 <= a <= x1 && y0
                        <= b <= y1 && (b < y || (b == y && a < x)) && grid_get(start, a, b).kind
                        == TileKind::Grass {
                        fresh(TileKind::Pavement)
                    } else {
                        grid_get(start, a, b)
                    },
            decreases x1 + 1 - x,
        {
            let ghost before = tiles@;
            let i = crate::map::idx(x, y);
            if tiles[i].kind == TileKind::Grass {
                crate::map::set(tiles, x, y, TileKind::Pavement);
            }
            proof {
                assert forall|a: int, b: int| in_grid(a, b) && !(a == x && b == y) implies #[trigger] grid_get(
                    tiles@,
                    a,
                    b,
                ) == grid_get(before, a, b) by {
                    if crate::map::cell(a, b) == crate::map::cell(x as int, y as int) {
                        crate::map::lemma_cell_inj(a, b, x as int, y as int);
                    }
                }
                assert(grid_get(before, x as int, y as int) == grid_get(start, x as int, y as int));
            }
            x = x + 1;
        }
        y = y + 1;
    }
}

fn lay_streets(tiles: &mut Vec<MapTile>)
    requires
        laid_out(old(tiles)@, |x: int, y: int| TileKind::Grass),
    ensures
        laid_out(final(tiles)@, |x: int, y: int| street_kind(x, y)),
{
    fill(tiles, 16, 0, 17, MAP_H as i32 - 1, TileKind::Road);
    fill(tiles, 0, 16, MAP_W as i32 - 1, 17, TileKind::Road);
    pave_grass(tiles, 15, 0, 15, MAP_H as i32 - 1);
    pave_grass(tiles, 18, 0, 18, MAP_H as i32 - 1);
    pave_grass(tiles, 0, 15, MAP_W as i32 - 1, 15);
    pave_grass(tiles, 0, 18, MAP_W as i32 - 1, 18);
}

/// Over `old`, the tiles `part` covers take the kind it gives.
pub open spec fn built(old: Seq<MapTile>, new: Seq<MapTile>, part: spec_fn(int, int) -> Option<TileKind>) -> bool {
    &&& new.len() == n_cells()
    &&& forall|x: int, y: int|
        in_grid(x, y) ==> #[trigger] grid_get(new, x, y) == match part(x, y) {
            Some(k) => fresh(k),
            None => grid_get(old, x, y),
        }
}

fn build_safe_house(tiles: &mut Vec<MapTile>)
    requires
        old(tiles)@.len() == n_cells(),
    ensures
        built(old(tiles)@, final(tiles)@, |x: int, y: int| safe_house_kind(x, y)),
{
    place_room(tiles, 1, 1, 12, 12, TileKind::WoodFloor, TileKind::ExtWall);
    fill(tiles, 2, 7, 11, 7, TileKind::IntWall);
    crate::map::set(tiles, 6, 7, TileKind::ClosedDoor);
    crate::map::set(tiles, 6, 12, TileKind::ClosedDoor);
    crate::map::set(tiles, 5, 1, TileKind::Window);
    crate::map::set(tiles, 8, 1, TileKind::Window);
    crate::map::set(tiles, 1, 5, TileKind::Window);
    crate::map::set(tiles, 12, 9, TileKind::Window);
    fill(tiles, 13, 12, 14, 12, TileKind::Pavement);
    fill(tiles, 13, 11, 14, 11, TileKind::Pavement);
}

fn build_store(tiles: &mut Vec<MapTile>)
    requires
        old(tiles)@.len() == n_cells(),
    ensures
        built(old(tiles)@, final(tiles)@, |x: int, y: int| store_kind(x, y)),
{
    place_room(tiles, 20, 1, 14, 11, TileKind::ConcreteFloor, TileKind::ExtWall);
    fill(tiles, 21, 7, 32, 7, TileKind::IntWall);
    crate::map::set(tiles, 26, 7, TileKind::ClosedDoor);
    crate::map::set(tiles, 26, 11, TileKind::ClosedDoor);
    crate::map::set(tiles, 23, 1, TileKind::Window);
    crate::map::set(tiles, 29, 1, TileKind::Window);
    crate::map::set(tiles, 33, 5, TileKind::Window);
    fill(tiles, 22, 4, 30, 4, TileKind::IntWall);
    crate::map::set(tiles, 22, 4, TileKind::ConcreteFloor);
    fill(tiles, 26, 12, 26, 14, TileKind::Pavement);
}

fn build_garage(tiles: &mut Vec<MapTile>)
    requires
        old(tiles)@.len() == n_cells(),
    ensures
        built(old(tiles)@, final(tiles)@, |x: int, y: int| garage_kind(x, y)),
{
    place_room(tiles, 1, 20, 12, 13, TileKind::ConcreteFloor, TileKind::ExtWall);
    crate::map::set(tiles, 5, 32, TileKind::ConcreteFloor);
    crate::map::set(tiles, 6, 32, TileKind::ConcreteFloor);
    crate::map::set(tiles, 7, 32, TileKind::ConcreteFloor);
    crate::map::set(tiles, 12, 26, TileKind::ClosedDoor);
    crate::map::set(tiles, 5, 20, TileKind::Window);
    crate::map::set(tiles, 1, 25, TileKind::Window);
    fill(tiles, 10, 21, 10, 26, TileKind::IntWall);
}

fn build_gas_station(tiles: &mut Vec<MapTile>)
    requires
        old(tiles)@.len() == n_cells(),
    ensures
        built(old(tiles)@, final(tiles)@, |x: int, y: int| gas_station_kind(x, y)),
{
    fill(tiles, 20, 20, 33, 33, TileKind::Pavement);
    place_room(tiles, 25, 20, 9, 8, TileKind::ConcreteFloor, TileKind::ExtWall);
    crate::map::set(tiles, 29, 27, TileKind::ClosedDoor);
    crate::map::set(tiles, 33, 24, TileKind::ClosedDoor);
    crate::map::set(tiles, 26, 20, TileKind::Window);
    crate::map::set(tiles, 30, 20, TileKind::Window);
    fill(tiles, 21, 30, 22, 31, TileKind::Rubble);
    fill(tiles, 21, 24, 22, 25, TileKind::Rubble);
}

fn place_loot(loot: &mut Vec<LootSpot>)
    requires
        old(loot)@.len() == 0,
    ensures
        final(loot)@.map_values(|l: LootSpot| l@) == generated_loot(),
{
    // Safe house loot (limited supplies: you need to scavenge).
    loot.push(LootSpot::new((4, 4), vec![Item::Flashlight { battery: 55 }, Item::Bandage], "Soffbord"));
    assert(loot@.map_values(|l: LootSpot| l@) =~= generated_loot().take(1));
    loot.push(LootSpot::new((9, 3), vec![Item::Food(20), Item::Water(15)], "Kylskåp"));
    assert(loot@.map_values(|l: LootSpot| l@) =~= generated_loot().take(2));
    loot.push(LootSpot::new((3, 9), vec![Item::Knife, Item::Food(10)], "Kökslåda"));
    assert(loot@.map_values(|l: LootSpot| l@) =~= generated_loot().take(3));
    // Store.
    loot.push(LootSpot::new((24, 3), vec![Item::Food(35), Item::Food(30), Item::Water(40)], "Hylla"));
    assert(loot@.map_values(|l: LootSpot| l@) =~= generated_loot().take(4));
    loot.push(LootSpot::new((29, 3), vec![Item::Water(30), Item::Medkit], "Kyldisk"));
    assert(loot@.map_values(|l: LootSpot| l@) =~= generated_loot().take(5));
    loot.push(LootSpot::new((25, 9), vec![Item::Food(20), Item::Bandage], "Förråd"));
    assert(loot@.map_values(|l: LootSpot| l@) =~= generated_loot().take(6));
    // Garage.
    loot.push(LootSpot::new((4, 23), vec![Item::TireIron, Item::Crowbar], "Verktygshylla"));
    assert(loot@.map_values(|l: LootSpot| l@) =~= generated_loot().take(7));
    loot.push(LootSpot::new((7, 28), vec![Item::Ammo(12), Item::Bandage], "Verktygslåda"));
    assert(loot@.map_values(|l: LootSpot| l@) =~= generated_loot().take(8));
    // Gas station: the key loot, in a back office corner.
    let keys = LootSpot::new((27, 22), vec![Item::CarKeys], "Nyckelskåp");
    assert(keys@.items == seq![Item::CarKeys]);
    assert(keys@ == generated_loot()[8]);
    loot.push(keys);
    assert(loot@.map_values(|l: LootSpot| l@) =~= generated_loot().take(9));
    loot.push(LootSpot::new((31, 23), vec![Item::Pistol, Item::Ammo(9)], "Kassaskåp"));
    assert(loot@.map_values(|l: LootSpot| l@) =~= generated_loot().take(10));
    loot.push(LootSpot::new((26, 25), vec![Item::Food(15), Item::Water(20)], "Disk"));
    assert(loot@.map_values(|l: LootSpot| l@) =~= generated_loot().take(11));
    assert(generated_loot().take(11) =~= generated_loot());
}

impl GameMap {
    /// Generates the one map of the game: crossing roads, a safe house, a
    /// store, a garage and a gas station, fences and debris, the loot in the
    /// buildings, and the escape point at the south end of the north-south
    /// road.
    pub fn generate() -> (r: GameMap)
        ensures
            r.wf(),
            laid_out(r.tiles@, |x: int, y: int| generated_kind(x, y)),
            r.loot@.map_values(|l: LootSpot| l@) == generated_loot(),
            r.escape_tile == (16i32, 34i32),
    {
        let mut tiles = vec![MapTile { kind: TileKind::Grass, blood: 0 }; MAP_W * MAP_H];
        let mut loot: Vec<LootSpot> = Vec::new();
        lay_streets(&mut tiles);
        let escape_tile = (16, 34);
        build_safe_house(&mut tiles);
        build_store(&mut tiles);
        build_garage(&mut tiles);
        build_gas_station(&mut tiles);
        // Fences on the grass between the safe house and the road.
        fill(&mut tiles, 0, 13, 0, 14, TileKind::ExtWall);
        fill(&mut tiles, 0, 19, 0, 20, TileKind::ExtWall);
        // Crashed car rubble near the intersection.
        fill(&mut tiles, 14, 14, 14, 15, TileKind::Rubble);
        fill(&mut tiles, 14, 18, 14, 19, TileKind::Rubble);
        place_loot(&mut loot);
        proof {
            assert forall|i: int| 0 <= i < n_cells() implies #[trigger] tiles@[i].blood <= 100 by {
                let x = i % 36;
                let y = i / 36;
                assert(grid_get(tiles@, x, y) == tiles@[i]);
            }
        }
        GameMap { tiles, loot, escape_tile }
    }
}

} // verus!
