//! The catalog's data model: the denormalized item record that the pipeline
//! emits, its enums, and the supplemental partial record merged onto it.

use vstd::prelude::*;
use vstd::string::*;
use crate::rows::ItemRowData;
use crate::strutil::lower_of;
use crate::strutil::lowercase;
use crate::strutil::parse_i32;
use crate::strutil::spec_parse_i32;
use crate::strutil::str_eq;

verus! {

/// Inventory slot category of an item. Raw values outside the known range
/// collapse to `NoSlot`, as the source tables use zero for "not equippable".
#[derive(Clone, Copy, Debug, PartialEq, Eq, Structural)]
pub enum InventoryType {
    NoSlot,
    Head,
    Neck,
    Shoulders,
    Shirt,
    Vest,
    Waist,
    Legs,
    Feet,
    Wrist,
    Hands,
    Ring,
    Trinket,
    OneHand,
    Shield,
    Bow,
    Back,
    TwoHand,
    Bag,
    Tabard,
    Robe,
    MainHand,
    OffHand,
    Held,
    Ammo,
    Thrown,
    Ranged,
    RangedRight,
    Relic,
}

/// What `InventoryType::from` returns for each raw slot value.
pub open spec fn spec_inventory_type(value: i32) -> InventoryType {
    if value == 1 {
        InventoryType::Head
    } else if value == 2 {
        InventoryType::Neck
    } else if value == 3 {
        InventoryType::Shoulders
    } else if value == 4 {
        InventoryType::Shirt
    } else if value == 5 {
        InventoryType::Vest
    } else if value == 6 {
        InventoryType::Waist
    } else if value == 7 {
        InventoryType::Legs
    } else if value == 8 {
        InventoryType::Feet
    } else if value == 9 {
        InventoryType::Wrist
    } else if value == 10 {
        InventoryType::Hands
    } else if value == 11 {
        InventoryType::Ring
    } else if value == 12 {
        InventoryType::Trinket
    } else if value == 13 {
        InventoryType::OneHand
    } else if value == 14 {
        InventoryType::Shield
    } else if value == 15 {
        InventoryType::Bow
    } else if value == 16 {
        InventoryType::Back
    } else if value == 17 {
        InventoryType::TwoHand
    } else if value == 18 {
        InventoryType::Bag
    } else if value == 19 {
        InventoryType::Tabard
    } else if value == 20 {
        InventoryType::Robe
    } else if value == 21 {
        InventoryType::MainHand
    } else if value == 22 {
        InventoryType::OffHand
    } else if value == 23 {
        InventoryType::Held
    } else if value == 24 {
        InventoryType::Ammo
    } else if value == 25 {
        InventoryType::Thrown
    } else if value == 26 {
        InventoryType::Ranged
    } else if value == 27 {
        InventoryType::RangedRight
    } else if value == 28 {
        InventoryType::Relic
    } else {
        InventoryType::NoSlot
    }
}

impl From<i32> for InventoryType {
    fn from(value: i32) -> Self {
        match value {
            1 => InventoryType::Head,
            2 => InventoryType::Neck,
            3 => InventoryType::Shoulders,
            4 => InventoryType::Shirt,
            5 => InventoryType::Vest,
            6 => InventoryType::Waist,
            7 => InventoryType::Legs,
            8 => InventoryType::Feet,
            9 => InventoryType::Wrist,
            10 => InventoryType::Hands,
            11 => InventoryType::Ring,
            12 => InventoryType::Trinket,
            13 => InventoryType::OneHand,
            14 => InventoryType::Shield,
            15 => InventoryType::Bow,
            16 => InventoryType::Back,
            17 => InventoryType::TwoHand,
            18 => InventoryType::Bag,
            19 => InventoryType::Tabard,
            20 => InventoryType::Robe,
            21 => InventoryType::MainHand,
            22 => InventoryType::OffHand,
            23 => InventoryType::Held,
            24 => InventoryType::Ammo,
            25 => InventoryType::Thrown,
            26 => InventoryType::Ranged,
            27 => InventoryType::RangedRight,
            28 => InventoryType::Relic,
            _ => InventoryType::NoSlot,
        }
    }
}

impl vstd::std_specs::convert::FromSpecImpl<i32> for InventoryType {
    open spec fn obeys_from_spec() -> bool {
        true
    }

    open spec fn from_spec(value: i32) -> Self {
        spec_inventory_type(value)
    }
}

/// Top-level item class. Raw values with no named variant are kept in
/// `Custom`, preserving round-trip fidelity for unknown inputs.
#[derive(Clone, Copy, Debug, PartialEq, Eq, Structural)]
pub enum ItemClass {
    Consumable,
    Container,
    Weapon,
    Gem,
    Armor,
    Projectile,
    TradeGoods,
    Generic,
    Recipe,
    Money,
    Quiver,
    Quest,
    Key,
    Permanent,
    Miscellaneous,
    Glyph,
    Custom(i32),
}

/// What `ItemClass::from` returns for each raw class value.
pub open spec fn spec_item_class(value: i32) -> ItemClass {
    if value == 0 {
        ItemClass::Consumable
    } else if value == 1 {
        ItemClass::Container
    } else if value == 2 {
        ItemClass::Weapon
    } else if value == 3 {
        ItemClass::Gem
    } else if value == 4 {
        ItemClass::Armor
    } else if value == 5 {
        ItemClass::Projectile
    } else if value == 6 {
        ItemClass::TradeGoods
    } else if value == 7 {
        ItemClass::Generic
    } else if value == 8 {
        ItemClass::Recipe
    } else if value == 9 {
        ItemClass::Money
    } else if value == 10 {
        ItemClass::Quiver
    } else if value == 11 {
        ItemClass::Quest
    } else if value == 12 {
        ItemClass::Key
    } else if value == 13 {
        ItemClass::Permanent
    } else if value == 15 {
        ItemClass::Miscellaneous
    } else if value == 16 {
        ItemClass::Glyph
    } else {
        ItemClass::Custom(value)
    }
}

impl From<i32> for ItemClass {
    fn from(value: i32) -> Self {
        match value {
            0 => ItemClass::Consumable,
            1 => ItemClass::Container,
            2 => ItemClass::Weapon,
            3 => ItemClass::Gem,
            4 => ItemClass::Armor,
            5 => ItemClass::Projectile,
            6 => ItemClass::TradeGoods,
            7 => ItemClass::Generic,
            8 => ItemClass::Recipe,
            9 => ItemClass::Money,
            10 => ItemClass::Quiver,
            11 => ItemClass::Quest,
            12 => ItemClass::Key,
            13 => ItemClass::Permanent,
            15 => ItemClass::Miscellaneous,
            16 => ItemClass::Glyph,
            _ => ItemClass::Custom(value),
        }
    }
}

impl vstd::std_specs::convert::FromSpecImpl<i32> for ItemClass {
    open spec fn obeys_from_spec() -> bool {
        true
    }

    open spec fn from_spec(value: i32) -> Self {
        spec_item_class(value)
    }
}

/// Rarity tier. Unrecognized raw values are kept in `Custom`.
#[derive(Clone, Copy, Debug, PartialEq, Eq, Structural)]
pub enum Rarity {
    Common,
    Uncommon,
    Rare,
    Epic,
    Legendary,
    Custom(i32),
}

/// What `Rarity::from` returns for each raw rarity value.
pub open spec fn spec_rarity(value: i32) -> Rarity {
    if value == 0 {
        Rarity::Common
    } else if value == 1 {
        Rarity::Uncommon
    } else if value == 2 {
        Rarity::Rare
    } else if value == 3 {
        Rarity::Epic
    } else if value == 4 {
        Rarity::Legendary
    } else {
        Rarity::Custom(value)
    }
}

impl From<i32> for Rarity {
    fn from(value: i32) -> Self {
        match value {
            0 => Rarity::Common,
            1 => Rarity::Uncommon,
            2 => Rarity::Rare,
            3 => Rarity::Epic,
            4 => Rarity::Legendary,
            _ => Rarity::Custom(value),
        }
    }
}

impl vstd::std_specs::convert::FromSpecImpl<i32> for Rarity {
    open spec fn obeys_from_spec() -> bool {
        true
    }

    open spec fn from_spec(value: i32) -> Self {
        spec_rarity(value)
    }
}

/// What `Rarity::from` returns for a textual tier label: a case-insensitive
/// match against the fixed vocabulary, with a numeric parse of the raw label
/// (zero when unparsable) for anything unrecognized.
pub open spec fn spec_rarity_of_label(s: Seq<char>) -> Rarity {
    let low = lower_of(s);
    if low == "common"@ {
        Rarity::Common
    } else if low == "uncommon"@ {
        Rarity::Uncommon
    } else if low == "rare"@ {
        Rarity::Rare
    } else if low == "epic"@ {
        Rarity::Epic
    } else if low == "legendary"@ {
        Rarity::Legendary
    } else {
        match spec_parse_i32(s) {
            Some(v) => Rarity::Custom(v),
            None => Rarity::Custom(0),
        }
    }
}

impl From<String> for Rarity {
    fn from(value: String) -> Self {
        let low = lowercase(value.as_str());
        if str_eq(low.as_str(), "common") {
            Rarity::Common
        } else if str_eq(low.as_str(), "uncommon") {
            Rarity::Uncommon
        } else if str_eq(low.as_str(), "rare") {
            Rarity::Rare
        } else if str_eq(low.as_str(), "epic") {
            Rarity::Epic
        } else if str_eq(low.as_str(), "legendary") {
            Rarity::Legendary
        } else {
            match parse_i32(value.as_str()) {
                Some(v) => Rarity::Custom(v),
                None => Rarity::Custom(0),
            }
        }
    }
}

impl vstd::std_specs::convert::FromSpecImpl<String> for Rarity {
    open spec fn obeys_from_spec() -> bool {
        true
    }

    open spec fn from_spec(value: String) -> Self {
        spec_rarity_of_label(value@)
    }
}

/// An item-set association attached to an item record: the set's identifier,
/// its localized name, and the ordered (piece-count threshold, granted spell
/// text) pairs.
#[derive(Clone, Debug)]
pub struct ItemSet {
    pub name: String,
    pub id: i32,
    pub spells: Vec<(u32, String)>,
}

/// The denormalized catalog record: one per surviving item, produced by the
/// enrichment join and mutated only by the supplemental overlay.
#[derive(Clone, Debug)]
pub struct Item {
    pub id: i32,
    pub name: String,
    pub class: ItemClass,
    pub subclass: String,
    pub inventory_icon: String,
    pub inventory_type: InventoryType,
    pub set: Option<ItemSet>,
    pub required_level: u32,
    pub stats: Vec<String>,
    pub spells: Vec<String>,
    pub requires: Vec<String>,
    pub rarity: Rarity,
    pub damage: String,
    pub added_damage: String,
    pub armor: String,
    pub speed: String,
    pub dps: String,
    pub bonding: String,
    pub hands: String,
}

impl Item {
    /// The bare record derived from an item row alone, before any
    /// cross-table enrichment: identifiers and enums carried over, every
    /// text field empty, the name a placeholder.
    pub fn from_row(row: &ItemRowData) -> (it: Item)
        ensures
            it.id == row.id,
            it.name@ == "<unknown>"@,
            it.class == spec_item_class(row.class_id),
            it.subclass@ == Seq::<char>::empty(),
            it.inventory_icon@ == Seq::<char>::empty(),
            it.inventory_type == spec_inventory_type(row.inventory_type),
            it.set is None,
            it.required_level == 0,
            it.stats@ == Seq::<String>::empty(),
            it.spells@ == Seq::<String>::empty(),
            it.requires@ == Seq::<String>::empty(),
            it.rarity == Rarity::Common,
            it.damage@ == Seq::<char>::empty(),
            it.added_damage@ == Seq::<char>::empty(),
            it.armor@ == Seq::<char>::empty(),
            it.speed@ == Seq::<char>::empty(),
            it.dps@ == Seq::<char>::empty(),
            it.bonding@ == Seq::<char>::empty(),
            it.hands@ == Seq::<char>::empty(),
    {
        Item {
            id: row.id,
            name: String::from_str("<unknown>"),
            class: ItemClass::from(row.class_id),
            subclass: String::new(),
            inventory_icon: String::new(),
            inventory_type: InventoryType::from(row.inventory_type),
            set: None,
            required_level: 0,
            stats: Vec::new(),
            spells: Vec::new(),
            requires: Vec::new(),
            rarity: Rarity::Common,
            damage: String::new(),
            added_damage: String::new(),
            armor: String::new(),
            speed: String::new(),
            dps: String::new(),
            bonding: String::new(),
            hands: String::new(),
        }
    }
}

/// Externally curated partial facts about one item; every field is optional
/// and only present, non-empty fields override the derived record.
#[derive(Clone, Debug)]
pub struct PartialItemData {
    pub name: String,
    pub rarity_type: Option<String>,
    pub stats: Option<Vec<String>>,
    pub spells: Option<Vec<String>>,
    pub requires_level: Option<u32>,
    pub requires: Option<Vec<String>>,
    pub damage: Option<String>,
    pub added_damage: Option<String>,
    pub armor: Option<String>,
    pub speed: Option<String>,
    pub dps: Option<String>,
    pub bonding: Option<String>,
    pub hands: Option<String>,
}

} // verus!
