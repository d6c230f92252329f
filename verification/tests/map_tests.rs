use skogen::camera::{MAP_H, MAP_W};
use skogen::loot::Item;
use skogen::map::{GameMap, PathPlan, TileKind};

fn kind(m: &GameMap, x: i32, y: i32) -> TileKind {
    m.tile_kind(x, y)
}

#[test]
fn generated_map_has_one_tile_per_cell() {
    let m = GameMap::generate();
    assert_eq!(m.tiles.len(), MAP_W * MAP_H);
    assert!(m.tiles.iter().all(|t| t.blood == 0));
}

#[test]
fn escape_point_is_on_the_road() {
    let m = GameMap::generate();
    assert_eq!(m.escape_tile, (16, 34));
    assert_eq!(kind(&m, 16, 34), TileKind::Road);
}

#[test]
fn roads_and_pavement_cross_the_map() {
    let m = GameMap::generate();
    assert_eq!(kind(&m, 16, 0), TileKind::Road);
    assert_eq!(kind(&m, 17, 35), TileKind::Road);
    assert_eq!(kind(&m, 0, 16), TileKind::Road);
    assert_eq!(kind(&m, 15, 0), TileKind::Pavement);
    assert_eq!(kind(&m, 18, 5), TileKind::Pavement);
    assert_eq!(kind(&m, 15, 16), TileKind::Road);
    assert_eq!(kind(&m, 35, 35), TileKind::Grass);
}

#[test]
fn safe_house_layout() {
    let m = GameMap::generate();
    assert_eq!(kind(&m, 1, 1), TileKind::ExtWall);
    assert_eq!(kind(&m, 6, 5), TileKind::WoodFloor);
    assert_eq!(kind(&m, 6, 7), TileKind::ClosedDoor);
    assert_eq!(kind(&m, 3, 7), TileKind::IntWall);
    assert_eq!(kind(&m, 6, 12), TileKind::ClosedDoor);
    assert_eq!(kind(&m, 5, 1), TileKind::Window);
    assert_eq!(kind(&m, 12, 9), TileKind::Window);
    assert_eq!(kind(&m, 13, 12), TileKind::Pavement);
}

#[test]
fn store_garage_and_gas_station_layout() {
    let m = GameMap::generate();
    assert_eq!(kind(&m, 22, 4), TileKind::ConcreteFloor);
    assert_eq!(kind(&m, 23, 4), TileKind::IntWall);
    assert_eq!(kind(&m, 26, 11), TileKind::ClosedDoor);
    assert_eq!(kind(&m, 26, 13), TileKind::Pavement);
    assert_eq!(kind(&m, 6, 32), TileKind::ConcreteFloor);
    assert_eq!(kind(&m, 10, 24), TileKind::IntWall);
    assert_eq!(kind(&m, 20, 33), TileKind::Pavement);
    assert_eq!(kind(&m, 25, 20), TileKind::ExtWall);
    assert_eq!(kind(&m, 29, 27), TileKind::ClosedDoor);
    assert_eq!(kind(&m, 21, 30), TileKind::Rubble);
    assert_eq!(kind(&m, 14, 15), TileKind::Rubble);
    assert_eq!(kind(&m, 0, 13), TileKind::ExtWall);
}

#[test]
fn off_map_is_outer_wall() {
    let m = GameMap::generate();
    assert_eq!(kind(&m, -1, 5), TileKind::ExtWall);
    assert_eq!(kind(&m, 36, 5), TileKind::ExtWall);
    assert!(m.is_solid(5, 36));
}

#[test]
fn generated_loot() {
    let m = GameMap::generate();
    assert_eq!(m.loot.len(), 11);
    assert_eq!(m.loot[0].tile, (4, 4));
    assert_eq!(m.loot[0].items, vec![Item::Flashlight { battery: 55 }, Item::Bandage]);
    assert_eq!(m.loot[0].label, "Soffbord");
    assert_eq!(m.loot[8].tile, (27, 22));
    assert_eq!(m.loot[8].items, vec![Item::CarKeys]);
    assert_eq!(m.loot[8].label, "Nyckelskåp");
    assert!(m.loot.iter().all(|l| !l.looted));
    let keys = m.loot.iter().filter(|l| l.items.contains(&Item::CarKeys)).count();
    assert_eq!(keys, 1);
}

#[test]
fn tile_kind_properties() {
    assert!(TileKind::ExtWall.is_solid());
    assert!(TileKind::ClosedDoor.is_solid());
    assert!(TileKind::Window.is_solid());
    assert!(!TileKind::OpenDoor.is_solid());
    assert!(!TileKind::BrokenWindow.is_solid());
    assert!(TileKind::Grass.is_slow());
    assert!(TileKind::Rubble.is_slow());
    assert!(!TileKind::Road.is_slow());
    assert_eq!(TileKind::Grass.sprite_col(), 0);
    assert_eq!(TileKind::OpenDoor.sprite_col(), 6);
    assert_eq!(TileKind::BrokenWindow.sprite_col(), 4);
    assert_eq!(TileKind::Rubble.sprite_col(), 5);
}

#[test]
fn doors_open_and_windows_break() {
    let mut m = GameMap::generate();
    m.open_door(6, 7);
    assert_eq!(kind(&m, 6, 7), TileKind::OpenDoor);
    assert!(!m.is_solid(6, 7));
    m.open_door(6, 7);
    assert_eq!(kind(&m, 6, 7), TileKind::OpenDoor);
    m.open_door(6, 5);
    assert_eq!(kind(&m, 6, 5), TileKind::WoodFloor);
    m.break_window(5, 1);
    assert_eq!(kind(&m, 5, 1), TileKind::BrokenWindow);
    m.break_window(6, 7);
    assert_eq!(kind(&m, 6, 7), TileKind::OpenDoor);
    m.open_door(-3, 4);
}

#[test]
fn blood_piles_up_to_full_cover() {
    let mut m = GameMap::generate();
    let i = 5 * MAP_W + 6;
    m.splat_blood(6, 5);
    assert_eq!(m.tiles[i].blood, 45);
    m.splat_blood(6, 5);
    assert_eq!(m.tiles[i].blood, 90);
    m.splat_blood(6, 5);
    assert_eq!(m.tiles[i].blood, 100);
    assert_eq!(m.tiles[i].kind, TileKind::WoodFloor);
    m.splat_blood(40, 5);
}

fn check_walk(m: &GameMap, start: (i32, i32), path: &[(i32, i32)]) {
    let mut prev = start;
    for &(x, y) in path {
        let (dx, dy) = (x - prev.0, y - prev.1);
        assert!(dx.abs() <= 1 && dy.abs() <= 1 && (dx, dy) != (0, 0));
        assert!(!m.is_solid(x, y));
        if dx != 0 && dy != 0 {
            assert!(!(m.is_solid(prev.0 + dx, prev.1) && m.is_solid(prev.0, prev.1 + dy)));
        }
        prev = (x, y);
    }
}

#[test]
fn path_inside_the_safe_house() {
    let m = GameMap::generate();
    match m.find_path(6, 5, 9, 3) {
        PathPlan::Route(p) => {
            assert_eq!(*p.last().unwrap(), (9, 3));
            assert_eq!(p.len(), 3);
            check_walk(&m, (6, 5), &p);
        }
        _ => panic!("expected a route"),
    }
}

#[test]
fn path_special_cases() {
    let m = GameMap::generate();
    assert!(matches!(m.find_path(6, 5, 6, 5), PathPlan::Arrived));
    assert!(matches!(m.find_path(6, 5, 1, 1), PathPlan::Blocked));
    assert!(matches!(m.find_path(6, 5, -4, 2), PathPlan::Blocked));
    assert!(matches!(m.find_path(6, 5, 6, 7), PathPlan::Blocked));
    // Closed doors keep the survivor inside the safe house.
    assert!(matches!(m.find_path(6, 5, 16, 5), PathPlan::Unreachable));
}

#[test]
fn path_out_through_open_doors() {
    let mut m = GameMap::generate();
    m.open_door(6, 7);
    m.open_door(6, 12);
    match m.find_path(6, 5, 16, 34) {
        PathPlan::Route(p) => {
            assert_eq!(*p.last().unwrap(), (16, 34));
            check_walk(&m, (6, 5), &p);
            // Diagonal steps make the walk no longer than the larger offset
            // plus the detours through the two doors.
            assert!(p.len() >= 29);
        }
        _ => panic!("expected a route"),
    }
}

#[test]
fn path_from_spawn_to_the_car_keys() {
    let mut m = GameMap::generate();
    m.open_door(6, 7);
    m.open_door(6, 12);
    m.open_door(29, 27);
    match m.find_path(6, 5, 27, 22) {
        PathPlan::Route(p) => {
            assert_eq!(*p.last().unwrap(), (27, 22));
            check_walk(&m, (6, 5), &p);
        }
        _ => panic!("expected a route"),
    }
    match m.find_path(27, 22, 16, 34) {
        PathPlan::Route(p) => {
            assert_eq!(*p.last().unwrap(), (16, 34));
            check_walk(&m, (27, 22), &p);
        }
        _ => panic!("expected a route"),
    }
}

#[test]
fn path_early_answers_ignore_the_start() {
    let m = GameMap::generate();
    assert!(matches!(m.find_path(-5, -5, -5, -5), PathPlan::Arrived));
    assert!(matches!(m.find_path(-5, 40, 1, 1), PathPlan::Blocked));
    assert!(matches!(m.find_path(100, 3, -1, 7), PathPlan::Blocked));
}
