use vstd::prelude::*;
use crate::camera::TILE_SIZE;
use crate::loot::{ContainerView, Item, LootContainer};
use crate::rng::roll_below;

verus! {

/// The kinds of building in the wild.
#[derive(Clone, Copy, PartialEq, Eq, Structural, Debug)]
pub enum BuildingKind {
    Stuga,
    Macken,
    IcaNara,
    Camping,
    Forrad,
}

/// A building: its kind, its corner tile, its size in tiles, its
/// containers and its sign.
pub struct Building {
    pub kind: BuildingKind,
    pub tx: i32,
    pub ty: i32,
    pub tw: i32,
    pub th: i32,
    pub containers: Vec<LootContainer>,
    pub label: &'static str,
}

/// The plain values of a building.
pub struct BuildingView {
    pub kind: BuildingKind,
    pub tx: i32,
    pub ty: i32,
    pub tw: i32,
    pub th: i32,
    pub containers: Seq<ContainerView>,
    pub label: Seq<char>,
}

impl View for Building {
    type V = BuildingView;

    open spec fn view(&self) -> BuildingView {
        BuildingView {
            kind: self.kind,
            tx: self.tx,
            ty: self.ty,
            tw: self.tw,
            th: self.th,
            containers: boxes_view(self.containers@),
            label: self.label@,
        }
    }
}

/// The width and height, in tiles, of a building of kind `k`.
pub open spec fn building_size(k: BuildingKind) -> (i32, i32) {
    match k {
        BuildingKind::Stuga => (5, 4),
        BuildingKind::Macken => (6, 5),
        BuildingKind::IcaNara => (8, 6),
        BuildingKind::Camping => (7, 7),
        BuildingKind::Forrad => (3, 3),
    }
}

/// The sign of a building of kind `k`.
pub open spec fn building_label(k: BuildingKind) -> Seq<char> {
    match k {
        BuildingKind::Stuga => "Stuga"@,
        BuildingKind::Macken => "MACKEN"@,
        BuildingKind::IcaNara => "ICA Nära"@,
        BuildingKind::Camping => "Camping"@,
        BuildingKind::Forrad => "Förråd"@,
    }
}

/// A fresh container view.
pub open spec fn fresh_box(x: int, y: int, items: Seq<Item>, label: Seq<char>) -> ContainerView {
    ContainerView { pos: (x as i64, y as i64), items, looted: false, label }
}

/// The containers of a cottage with corner tile (tx, ty): a cupboard, with
/// an axe in place of its last food when `axe` holds, and a dresser one
/// tile east of it.
pub open spec fn stuga_boxes(tx: int, ty: int, axe: bool) -> Seq<ContainerView> {
    let cx = 32 * tx + 48;
    let cy = 32 * ty + 48;
    seq![
        fresh_box(cx, cy, seq![Item::Food(40), Item::Food(30), Item::Water(30), if axe { Item::Axe } else { Item::Food(20) }], "Skåp"@),
        fresh_box(cx + 32, cy, seq![Item::Medicine, Item::Water(50)], "Byrå"@),
    ]
}

/// The containers of a gas station with corner tile (tx, ty).
pub open spec fn macken_boxes(tx: int, ty: int) -> Seq<ContainerView> {
    let cx = 32 * tx + 48;
    let cy = 32 * ty + 48;
    seq![
        fresh_box(cx, cy, seq![Item::Food(25), Item::Food(25), Item::Water(40), Item::Crowbar], "Hylla"@),
        fresh_box(cx + 64, cy, seq![Item::Food(20), Item::Ammo(12)], "Kassalåda"@),
    ]
}

/// The containers of a grocery store with corner tile (tx, ty).
pub open spec fn ica_boxes(tx: int, ty: int) -> Seq<ContainerView> {
    let cx = 32 * tx + 64;
    let cy = 32 * ty + 64;
    seq![
        fresh_box(cx, cy, seq![Item::Food(50), Item::Food(50), Item::Food(40), Item::Water(60)], "Hylla 1"@),
        fresh_box(cx + 64, cy, seq![Item::Water(60), Item::Water(40), Item::Food(30)], "Hylla 2"@),
        fresh_box(cx, cy + 32, seq![Item::Medicine, Item::Medicine, Item::Ammo(6)], "Apotek"@),
        fresh_box(cx + 64, cy + 32, seq![Item::Pistol, Item::Ammo(18)], "Kassaskåp"@),
    ]
}

/// The containers of a camp site with corner tile (tx, ty).
pub open spec fn camping_boxes(tx: int, ty: int) -> Seq<ContainerView> {
    let cx = 32 * tx + 32;
    let cy = 32 * ty + 48;
    seq![
        fresh_box(cx, cy, seq![Item::Food(35), Item::Water(50), Item::Axe], "Tält 1"@),
        fresh_box(cx + 64, cy, seq![Item::Food(30), Item::Water(45), Item::Medicine], "Tält 2"@),
        fresh_box(cx + 32, cy + 64, seq![Item::Water(60), Item::Food(20)], "Tält 3"@),
    ]
}

/// The containers of a shed with corner tile (tx, ty).
pub open spec fn forrad_boxes(tx: int, ty: int) -> Seq<ContainerView> {
    seq![fresh_box(32 * tx + 32, 32 * ty + 32, seq![Item::Axe, Item::Wood, Item::Stone], "Förråd"@)]
}

/// The containers of a building of kind `k` with corner tile (tx, ty);
/// `axe` decides the cottage cupboard only.
pub open spec fn building_boxes(k: BuildingKind, tx: int, ty: int, axe: bool) -> Seq<ContainerView> {
    match k {
        BuildingKind::Stuga => stuga_boxes(tx, ty, axe),
        BuildingKind::Macken => macken_boxes(tx, ty),
        BuildingKind::IcaNara => ica_boxes(tx, ty),
        BuildingKind::Camping => camping_boxes(tx, ty),
        BuildingKind::Forrad => forrad_boxes(tx, ty),
    }
}

/// The views of a list of containers.
pub open spec fn boxes_view(v: Seq<LootContainer>) -> Seq<ContainerView> {
    v.map_values(|c: LootContainer| c@)
}

/// The world pixel coordinate `off` pixels into tile coordinate `t`.
fn px(t: i32, off: i64) -> (r: i64)
    requires
        0 <= off <= 128,
    ensures
        r == 32 * t + off,
{
    t as i64 * TILE_SIZE + off
}

/// The cottage containers when the draw for the axe came out as `axe_roll`:
/// the cupboard holds an axe exactly when `axe_roll` is 0.
pub fn stuga_loot_rolled(tx: i32, ty: i32, axe_roll: u32) -> (r: Vec<LootContainer>)
    ensures
        boxes_view(r@) == stuga_boxes(tx as int, ty as int, axe_roll == 0),
{
    let cx = px(tx, 48);
    let cy = px(ty, 48);
    let last = if axe_roll == 0 { Item::Axe } else { Item::Food(20) };
    let r = vec![
        LootContainer::new((cx, cy), vec![Item::Food(40), Item::Food(30), Item::Water(30), last], "Skåp"),
        LootContainer::new((cx + 32, cy), vec![Item::Medicine, Item::Water(50)], "Byrå"),
    ];
    assert(boxes_view(r@) =~= stuga_boxes(tx as int, ty as int, axe_roll == 0));
    r
}

/// The cottage containers: the cupboard holds an axe one time in three.
fn stuga_loot(tx: i32, ty: i32) -> (r: Vec<LootContainer>)
    ensures
        boxes_view(r@) == stuga_boxes(tx as int, ty as int, true) || boxes_view(r@) == stuga_boxes(
            tx as int,
            ty as int,
            false,
        ),
{
    let roll = roll_below(3);
    stuga_loot_rolled(tx, ty, roll)
}

fn macken_loot(tx: i32, ty: i32) -> (r: Vec<LootContainer>)
    ensures
        boxes_view(r@) == macken_boxes(tx as int, ty as int),
{
    let cx = px(tx, 48);
    let cy = px(ty, 48);
    let r = vec![
        LootContainer::new((cx, cy), vec![Item::Food(25), Item::Food(25), Item::Water(40), Item::Crowbar], "Hylla"),
        LootContainer::new((cx + 64, cy), vec![Item::Food(20), Item::Ammo(12)], "Kassalåda"),
    ];
    assert(boxes_view(r@) =~= macken_boxes(tx as int, ty as int));
    r
}

fn ica_loot(tx: i32, ty: i32) -> (r: Vec<LootContainer>)
    ensures
        boxes_view(r@) == ica_boxes(tx as int, ty as int),
{
    let cx = px(tx, 64);
    let cy = px(ty, 64);
    let r = vec![
        LootContainer::new((cx, cy), vec![Item::Food(50), Item::Food(50), Item::Food(40), Item::Water(60)], "Hylla 1"),
        LootContainer::new((cx + 64, cy), vec![Item::Water(60), Item::Water(40), Item::Food(30)], "Hylla 2"),
        LootContainer::new((cx, cy + 32), vec![Item::Medicine, Item::Medicine, Item::Ammo(6)], "Apotek"),
        LootContainer::new((cx + 64, cy + 32), vec![Item::Pistol, Item::Ammo(18)], "Kassaskåp"),
    ];
    assert(boxes_view(r@) =~= ica_boxes(tx as int, ty as int));
    r
}

fn camping_loot(tx: i32, ty: i32) -> (r: Vec<LootContainer>)
    ensures
        boxes_view(r@) == camping_boxes(tx as int, ty as int),
{
    let cx = px(tx, 32);
    let cy = px(ty, 48);
    let r = vec![
        LootContainer::new((cx, cy), vec![Item::Food(35), Item::Water(50), Item::Axe], "Tält 1"),
        LootContainer::new((cx + 64, cy), vec![Item::Food(30), Item::Water(45), Item::Medicine], "Tält 2"),
        LootContainer::new((cx + 32, cy + 64), vec![Item::Water(60), Item::Food(20)], "Tält 3"),
    ];
    assert(boxes_view(r@) =~= camping_boxes(tx as int, ty as int));
    r
}

fn forrad_loot(tx: i32, ty: i32) -> (r: Vec<LootContainer>)
    ensures
        boxes_view(r@) == forrad_boxes(tx as int, ty as int),
{
    let cx = px(tx, 32);
    let cy = px(ty, 32);
    let r = vec![LootContainer::new((cx, cy), vec![Item::Axe, Item::Wood, Item::Stone], "Förråd")];
    assert(boxes_view(r@) =~= forrad_boxes(tx as int, ty as int));
    r
}

impl Building {
    /// A building of kind `kind` with corner tile (tx, ty), its size, sign
    /// and containers set by its kind; a cottage draws whether its cupboard
    /// holds an axe.
    pub fn new(kind: BuildingKind, tx: i32, ty: i32) -> (r: Building)
        ensures
            r.kind == kind,
            r.tx == tx,
            r.ty == ty,
            (r.tw, r.th) == building_size(kind),
            r.label@ == building_label(kind),
            boxes_view(r.containers@) == building_boxes(kind, tx as int, ty as int, true)
                || boxes_view(r.containers@) == building_boxes(kind, tx as int, ty as int, false),
    {
        let (tw, th, label, containers) = match kind {
            BuildingKind::Stuga => (5, 4, "Stuga", stuga_loot(tx, ty)),
            BuildingKind::Macken => (6, 5, "MACKEN", macken_loot(tx, ty)),
            BuildingKind::IcaNara => (8, 6, "ICA Nära", ica_loot(tx, ty)),
            BuildingKind::Camping => (7, 7, "Camping", camping_loot(tx, ty)),
            BuildingKind::Forrad => (3, 3, "Förråd", forrad_loot(tx, ty)),
        };
        Building { kind, tx, ty, tw, th, containers, label }
    }
}

} // verus!
