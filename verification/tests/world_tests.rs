use skogen::buildings::BuildingKind;
use skogen::entities::{Entity, EntityKind};
use skogen::loot::Item;
use skogen::world::{TileKind, World};

#[test]
fn wild_terrain() {
    let w = World::generate();
    assert_eq!(w.tiles.len(), 36 * 36);
    assert_eq!(w.get_tile(5, 18), TileKind::Road);
    assert_eq!(w.get_tile(18, 2), TileKind::Road);
    assert_eq!(w.get_tile(5, 3), TileKind::Road);
    assert_eq!(w.get_tile(22, 33), TileKind::Water);
    // The lake floods the eastern branch road where it crosses it.
    assert_eq!(w.get_tile(26, 34), TileKind::Water);
    assert_eq!(w.get_tile(22, 20), TileKind::Sand);
    assert_eq!(w.get_tile(15, 15), TileKind::Forest);
    assert_eq!(w.get_tile(-1, 0), TileKind::Water);
    assert!(w.get_tile(15, 15).is_solid());
    assert!(!w.get_tile(5, 18).is_solid());
}

#[test]
fn wild_buildings() {
    let w = World::generate();
    assert_eq!(w.buildings.len(), 10);
    assert_eq!(w.buildings[0].kind, BuildingKind::Macken);
    assert_eq!((w.buildings[0].tx, w.buildings[0].ty), (21, 10));
    // The gas station's walls and its door gap in the middle of the bottom wall.
    assert_eq!(w.get_tile(21, 10), TileKind::BuildingWall);
    assert_eq!(w.get_tile(22, 12), TileKind::BuildingFloor);
    assert_eq!(w.get_tile(23, 14), TileKind::BuildingFloor);
    assert_eq!(w.get_tile(24, 14), TileKind::BuildingFloor);
    assert_eq!(w.get_tile(22, 14), TileKind::BuildingWall);
    assert_eq!(w.buildings[1].kind, BuildingKind::IcaNara);
    assert_eq!(w.get_tile(0, 21), TileKind::BuildingWall);
    assert!(w.entities.is_empty());
}

#[test]
fn planting_on_grass_only() {
    let mut w = World::generate();
    assert_eq!(w.get_tile(2, 30), TileKind::Grass);
    w.plant_entity_rolled(2, 30, 3);
    w.plant_entity_rolled(2, 30, 4);
    w.plant_entity_rolled(2, 30, 9);
    assert_eq!(w.entities.len(), 3);
    assert_eq!(w.entities[0].kind, EntityKind::Tree);
    assert_eq!(w.entities[1].kind, EntityKind::Rock);
    assert_eq!(w.entities[2].kind, EntityKind::Bush);
    assert_eq!(w.entities[0].pos, (80, 976));
    w.plant_entity_rolled(5, 18, 0);
    assert_eq!(w.entities.len(), 3);
}

#[test]
fn random_planting_draws_every_kind() {
    macroquad::rand::srand(7);
    let mut w = World::generate();
    for _ in 0..60 {
        w.plant_entity(2, 30);
    }
    assert_eq!(w.entities.len(), 60);
    assert!(w.entities.iter().any(|e| e.kind == EntityKind::Tree));
    assert!(w.entities.iter().any(|e| e.kind == EntityKind::Bush));
}

#[test]
fn searching_the_wild() {
    let mut w = World::generate();
    w.entities.push(Entity::new(EntityKind::Tree, (0, 0)));
    w.entities.push(Entity::new(EntityKind::Bush, (0, 0)));
    let mut box_reach: Vec<Vec<bool>> = w.buildings.iter().map(|b| vec![false; b.containers.len()]).collect();
    box_reach[0][1] = true;
    let entity_reach = vec![true, true];
    // Without an axe only the bush can be harvested.
    let items = w.interact_near(&box_reach, &entity_reach, false);
    assert_eq!(items, vec![Item::Food(20), Item::Ammo(12), Item::Food(20)]);
    assert!(w.buildings[0].containers[1].looted);
    assert!(!w.entities[1].alive);
    assert!(w.entities[0].alive);
    // With an axe the tree takes a blow; the emptied container gives nothing.
    let items = w.interact_near(&box_reach, &entity_reach, true);
    assert_eq!(items, vec![Item::Wood]);
    assert_eq!(w.entities[0].health, 2);
    let items = w.interact_near(&box_reach, &entity_reach, true);
    assert_eq!(items, vec![Item::Wood]);
    let items = w.interact_near(&box_reach, &entity_reach, true);
    assert_eq!(items, vec![Item::Wood, Item::Wood]);
    assert!(!w.entities[0].alive);
    let items = w.interact_near(&box_reach, &entity_reach, true);
    assert!(items.is_empty());
}

#[test]
fn wild_building_signs_match_their_kinds() {
    let a = World::generate();
    let b = World::generate();
    assert_eq!(a.tiles, b.tiles);
    assert_eq!(a.buildings.len(), b.buildings.len());
    for (x, y) in a.buildings.iter().zip(b.buildings.iter()) {
        assert_eq!((x.kind, x.tx, x.ty, x.tw, x.th, x.label), (y.kind, y.tx, y.ty, y.tw, y.th, y.label));
        let want = match x.kind {
            BuildingKind::Stuga => "Stuga",
            BuildingKind::Macken => "MACKEN",
            BuildingKind::IcaNara => "ICA Nära",
            BuildingKind::Camping => "Camping",
            BuildingKind::Forrad => "Förråd",
        };
        assert_eq!(x.label, want);
    }
}
