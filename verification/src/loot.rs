use vstd::prelude::*;

verus! {

/// Something a survivor can carry. Food and water carry how much they
/// restore; ammunition, how many rounds; a flashlight, its battery in percent.
#[derive(Clone, Copy, PartialEq, Eq, Structural, Debug)]
pub enum Item {
    Food(u8),
    Water(u8),
    Medicine,
    Wood,
    Stone,
    Axe,
    Crowbar,
    Pistol,
    Ammo(u8),
    Flashlight { battery: u8 },
    Bandage,
    Knife,
    TireIron,
    Medkit,
    CarKeys,
}

/// The name an item goes by on screen.
pub open spec fn item_name(i: Item) -> Seq<char> {
    match i {
        Item::Food(_) => "Mat"@,
        Item::Water(_) => "Vatten"@,
        Item::Medicine => "Medicin"@,
        Item::Wood => "Trä"@,
        Item::Stone => "Sten"@,
        Item::Axe => "Yxa"@,
        Item::Crowbar => "Kofot"@,
        Item::Pistol => "Pistol"@,
        Item::Ammo(_) => "Ammo"@,
        Item::Flashlight { .. } => "Ficklampa"@,
        Item::Bandage => "Bandage"@,
        Item::Knife => "Kniv"@,
        Item::TireIron => "Däckjärn"@,
        Item::Medkit => "Förbandslåda"@,
        Item::CarKeys => "Bilnycklar"@,
    }
}

/// The damage a blow or shot with the item does.
pub open spec fn item_damage(i: Item) -> u32 {
    match i {
        Item::Axe => 34,
        Item::Crowbar => 26,
        Item::Pistol => 100,
        _ => 8,
    }
}

/// How far the item reaches, in world pixels.
pub open spec fn item_range(i: Item) -> u32 {
    match i {
        Item::Pistol => 280,
        Item::Axe => 64,
        Item::Crowbar => 56,
        _ => 40,
    }
}

/// What eating the item restores of hunger.
pub open spec fn item_hunger(i: Item) -> u32 {
    match i {
        Item::Food(n) => n as u32,
        _ => 0,
    }
}

/// What drinking the item restores of thirst.
pub open spec fn item_thirst(i: Item) -> u32 {
    match i {
        Item::Water(n) => n as u32,
        _ => 0,
    }
}

/// What using the item restores of health.
pub open spec fn item_health(i: Item) -> u32 {
    match i {
        Item::Medicine => 40,
        _ => 0,
    }
}

/// The items that are used up when used: food, water and medicine.
pub open spec fn consumable(i: Item) -> bool {
    i is Food || i is Water || i is Medicine
}

impl Item {
    /// The name the item goes by on screen.
    pub fn name(&self) -> (r: &'static str)
        ensures
            r@ == item_name(*self),
    {
        match self {
            Item::Food(_) => "Mat",
            Item::Water(_) => "Vatten",
            Item::Medicine => "Medicin",
            Item::Wood => "Trä",
            Item::Stone => "Sten",
            Item::Axe => "Yxa",
            Item::Crowbar => "Kofot",
            Item::Pistol => "Pistol",
            Item::Ammo(_) => "Ammo",
            Item::Flashlight { .. } => "Ficklampa",
            Item::Bandage => "Bandage",
            Item::Knife => "Kniv",
            Item::TireIron => "Däckjärn",
            Item::Medkit => "Förbandslåda",
            Item::CarKeys => "Bilnycklar",
        }
    }

    /// Whether the item is a weapon: the axe, the crowbar and the pistol.
    pub fn is_weapon(&self) -> (r: bool)
        ensures
            r == (*self is Axe || *self is Crowbar || *self is Pistol),
    {
        matches!(self, Item::Axe | Item::Crowbar | Item::Pistol)
    }

    /// Whether the item shoots: only the pistol.
    pub fn is_ranged(&self) -> (r: bool)
        ensures
            r == (*self is Pistol),
    {
        matches!(self, Item::Pistol)
    }

    /// The damage a blow or shot with the item does.
    pub fn damage(&self) -> (r: u32)
        ensures
            r == item_damage(*self),
    {
        match self {
            Item::Axe => 34,
            Item::Crowbar => 26,
            Item::Pistol => 100,
            _ => 8,
        }
    }

    /// How far the item reaches, in world pixels.
    pub fn attack_range(&self) -> (r: u32)
        ensures
            r == item_range(*self),
    {
        match self {
            Item::Pistol => 280,
            Item::Axe => 64,
            Item::Crowbar => 56,
            _ => 40,
        }
    }

    /// What eating the item restores of hunger.
    pub fn hunger_restore(&self) -> (r: u32)
        ensures
            r == item_hunger(*self),
    {
        match self {
            Item::Food(n) => *n as u32,
            _ => 0,
        }
    }

    /// What drinking the item restores of thirst.
    pub fn thirst_restore(&self) -> (r: u32)
        ensures
            r == item_thirst(*self),
    {
        match self {
            Item::Water(n) => *n as u32,
            _ => 0,
        }
    }

    /// What using the item restores of health.
    pub fn health_restore(&self) -> (r: u32)
        ensures
            r == item_health(*self),
    {
        match self {
            Item::Medicine => 40,
            _ => 0,
        }
    }

    /// Whether using the item uses it up.
    pub fn is_consumable(&self) -> (r: bool)
        ensures
            r == consumable(*self),
    {
        matches!(self, Item::Food(_) | Item::Water(_) | Item::Medicine)
    }
}

/// A container inside a building, at a position in world pixels.
pub struct LootContainer {
    pub pos: (i64, i64),
    pub items: Vec<Item>,
    pub looted: bool,
    pub label: &'static str,
}

/// The plain values of a container.
pub struct ContainerView {
    pub pos: (i64, i64),
    pub items: Seq<Item>,
    pub looted: bool,
    pub label: Seq<char>,
}

impl View for LootContainer {
    type V = ContainerView;

    open spec fn view(&self) -> ContainerView {
        ContainerView { pos: self.pos, items: self.items@, looted: self.looted, label: self.label@ }
    }
}

impl LootContainer {
    /// A container at `pos` that holds `items` and has not been searched.
    pub fn new(pos: (i64, i64), items: Vec<Item>, label: &'static str) -> (r: LootContainer)
        ensures
            r@ == (ContainerView { pos, items: items@, looted: false, label: label@ }),
    {
        LootContainer { pos, items, looted: false, label }
    }
}

/// A loot container lying on a tile of the map.
pub struct LootSpot {
    pub tile: (i32, i32),
    pub items: Vec<Item>,
    pub looted: bool,
    pub label: &'static str,
}

/// The plain values of a loot spot.
pub struct LootSpotView {
    pub tile: (i32, i32),
    pub items: Seq<Item>,
    pub looted: bool,
    pub label: Seq<char>,
}

impl View for LootSpot {
    type V = LootSpotView;

    open spec fn view(&self) -> LootSpotView {
        LootSpotView {
            tile: self.tile,
            items: self.items@,
            looted: self.looted,
            label: self.label@,
        }
    }
}

impl LootSpot {
    /// A spot on tile `tile` that holds `items` and has not been searched.
    pub fn new(tile: (i32, i32), items: Vec<Item>, label: &'static str) -> (r: LootSpot)
        ensures
            r@ == (LootSpotView { tile, items: items@, looted: false, label: label@ }),
    {
        LootSpot { tile, items, looted: false, label }
    }
}

} // verus!
