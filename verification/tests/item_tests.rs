use skogen::buildings::{stuga_loot_rolled, Building, BuildingKind};
use skogen::entities::{Entity, EntityKind};
use skogen::loot::{Item, LootContainer};

#[test]
fn item_names() {
    assert_eq!(Item::Food(3).name(), "Mat");
    assert_eq!(Item::Water(3).name(), "Vatten");
    assert_eq!(Item::Medicine.name(), "Medicin");
    assert_eq!(Item::Wood.name(), "Trä");
    assert_eq!(Item::Crowbar.name(), "Kofot");
    assert_eq!(Item::Ammo(6).name(), "Ammo");
    assert_eq!(Item::CarKeys.name(), "Bilnycklar");
}

#[test]
fn weapons() {
    assert!(Item::Axe.is_weapon() && Item::Crowbar.is_weapon() && Item::Pistol.is_weapon());
    assert!(!Item::Knife.is_weapon() && !Item::Food(1).is_weapon());
    assert!(Item::Pistol.is_ranged() && !Item::Axe.is_ranged());
    assert_eq!(Item::Axe.damage(), 34);
    assert_eq!(Item::Crowbar.damage(), 26);
    assert_eq!(Item::Pistol.damage(), 100);
    assert_eq!(Item::Stone.damage(), 8);
    assert_eq!(Item::Pistol.attack_range(), 280);
    assert_eq!(Item::Axe.attack_range(), 64);
    assert_eq!(Item::Crowbar.attack_range(), 56);
    assert_eq!(Item::Knife.attack_range(), 40);
}

#[test]
fn restoring_items() {
    assert_eq!(Item::Food(35).hunger_restore(), 35);
    assert_eq!(Item::Water(35).hunger_restore(), 0);
    assert_eq!(Item::Water(45).thirst_restore(), 45);
    assert_eq!(Item::Medicine.health_restore(), 40);
    assert_eq!(Item::Bandage.health_restore(), 0);
    assert!(Item::Food(1).is_consumable());
    assert!(Item::Medicine.is_consumable());
    assert!(!Item::Axe.is_consumable());
}

#[test]
fn containers_start_full() {
    let c = LootContainer::new((10, 20), vec![Item::Axe], "Låda");
    assert_eq!(c.pos, (10, 20));
    assert!(!c.looted);
    assert_eq!(c.items, vec![Item::Axe]);
}

#[test]
fn cottage_cupboard_axe_draw() {
    let with_axe = stuga_loot_rolled(2, 3, 0);
    assert_eq!(with_axe.len(), 2);
    assert_eq!(with_axe[0].pos, (112, 144));
    assert_eq!(with_axe[0].items[3], Item::Axe);
    assert_eq!(with_axe[1].pos, (144, 144));
    assert_eq!(with_axe[1].label, "Byrå");
    let without = stuga_loot_rolled(2, 3, 2);
    assert_eq!(without[0].items[3], Item::Food(20));
}

#[test]
fn buildings_by_kind() {
    let b = Building::new(BuildingKind::IcaNara, 1, 1);
    assert_eq!((b.tw, b.th), (8, 6));
    assert_eq!(b.label, "ICA Nära");
    assert_eq!(b.containers.len(), 4);
    assert_eq!(b.containers[3].pos, (160, 128));
    assert_eq!(b.containers[3].items, vec![Item::Pistol, Item::Ammo(18)]);
    let f = Building::new(BuildingKind::Forrad, -2, 0);
    assert_eq!((f.tw, f.th), (3, 3));
    assert_eq!(f.containers[0].pos, (-32, 32));
    let s = Building::new(BuildingKind::Stuga, 0, 0);
    assert_eq!((s.tw, s.th), (5, 4));
    let last = s.containers[0].items[3];
    assert!(last == Item::Axe || last == Item::Food(20));
    let c = Building::new(BuildingKind::Camping, 0, 0);
    assert_eq!(c.containers[2].pos, (64, 112));
    let m = Building::new(BuildingKind::Macken, 0, 0);
    assert_eq!(m.containers[1].pos, (112, 48));
}

#[test]
fn entities() {
    let t = Entity::new(EntityKind::Tree, (16, 16));
    assert_eq!(t.health, 3);
    assert!(t.alive && t.is_solid());
    assert_eq!(t.loot(), vec![Item::Wood, Item::Wood]);
    assert_eq!(t.harvest_item(), Item::Wood);
    let r = Entity::new(EntityKind::Rock, (0, 0));
    assert_eq!(r.health, 4);
    assert_eq!(r.harvest_item(), Item::Stone);
    let b = Entity::new(EntityKind::Bush, (0, 0));
    assert_eq!(b.health, 1);
    assert!(!b.is_solid());
    assert_eq!(b.loot(), vec![Item::Food(20)]);
    assert_eq!(b.harvest_item(), Item::Food(10));
}
