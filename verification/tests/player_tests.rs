use skogen::loot::Item;
use skogen::map::{GameMap, TileKind};
use skogen::player::Player;

#[test]
fn new_survivor_carries_the_basics() {
    let p = Player::new();
    assert_eq!(p.inventory, vec![Item::Knife, Item::Bandage, Item::Food(20), Item::Water(15)]);
    assert_eq!(p.active_slot, 0);
    assert!(!p.has_keys);
    assert_eq!(p.active_item(), Some(&Item::Knife));
}

#[test]
fn slot_selection() {
    let mut p = Player::new();
    p.select_slot(2);
    assert_eq!(p.active_slot, 2);
    p.select_slot(7);
    assert_eq!(p.active_slot, 2);
    p.select_prev_slot();
    assert_eq!(p.active_slot, 1);
    p.select_prev_slot();
    p.select_prev_slot();
    assert_eq!(p.active_slot, 0);
    p.select_next_slot();
    p.select_next_slot();
    p.select_next_slot();
    p.select_next_slot();
    assert_eq!(p.active_slot, 3);
}

#[test]
fn using_items() {
    let mut p = Player::new();
    // A knife is not used up.
    assert_eq!(p.use_active_item(), None);
    assert_eq!(p.inventory.len(), 4);
    p.select_slot(2);
    assert_eq!(p.use_active_item(), Some(Item::Food(20)));
    assert_eq!(p.inventory, vec![Item::Knife, Item::Bandage, Item::Water(15)]);
    assert_eq!(p.active_slot, 2);
    assert_eq!(p.use_active_item(), Some(Item::Water(15)));
    // The last slot was used: the selection moves to the new last one.
    assert_eq!(p.active_slot, 1);
    assert_eq!(p.inventory, vec![Item::Knife, Item::Bandage]);
    assert_eq!(p.use_active_item(), None);
}

#[test]
fn emptying_the_inventory_keeps_the_first_slot() {
    let mut p = Player { inventory: vec![Item::Medicine], active_slot: 0, has_keys: false };
    assert_eq!(p.use_active_item(), Some(Item::Medicine));
    assert!(p.inventory.is_empty());
    assert_eq!(p.active_slot, 0);
    assert_eq!(p.active_item(), None);
    p.select_next_slot();
    assert_eq!(p.active_slot, 0);
}

#[test]
fn searching_takes_reached_loot_once() {
    let mut m = GameMap::generate();
    let mut p = Player::new();
    let mut reach = vec![false; m.loot.len()];
    reach[0] = true;
    reach[2] = true;
    p.interact(&mut m, 6, 5, &reach);
    assert_eq!(
        p.inventory,
        vec![
            Item::Knife, Item::Bandage, Item::Food(20), Item::Water(15),
            Item::Flashlight { battery: 55 }, Item::Bandage, Item::Knife, Item::Food(10),
        ]
    );
    assert!(m.loot[0].looted && m.loot[0].items.is_empty());
    assert!(!m.loot[1].looted && m.loot[1].items.len() == 2);
    assert!(m.loot[2].looted);
    // A second search finds nothing more.
    p.interact(&mut m, 6, 5, &reach);
    assert_eq!(p.inventory.len(), 8);
}

#[test]
fn searching_opens_doors_beside() {
    let mut m = GameMap::generate();
    let mut p = Player::new();
    let reach = vec![false; m.loot.len()];
    p.interact(&mut m, 6, 6, &reach);
    assert_eq!(m.tile_kind(6, 7), TileKind::OpenDoor);
    assert_eq!(m.tile_kind(6, 12), TileKind::ClosedDoor);
    assert_eq!(p.inventory.len(), 4);
}

#[test]
fn car_keys_are_noticed() {
    let mut m = GameMap::generate();
    let mut p = Player::new();
    p.update_keys();
    assert!(!p.has_keys);
    let mut reach = vec![false; m.loot.len()];
    reach[8] = true;
    p.interact(&mut m, 27, 22, &reach);
    assert!(!p.has_keys);
    p.update_keys();
    assert!(p.has_keys);
}
