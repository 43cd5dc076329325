use dbc_parser::join::enrich_all;
use dbc_parser::models::InventoryType;
use dbc_parser::models::Item;
use dbc_parser::models::ItemClass;
use dbc_parser::models::PartialItemData;
use dbc_parser::models::Rarity;
use dbc_parser::output::filter_by_level;
use dbc_parser::output::sort_items;
use dbc_parser::overlay::SupplementalData;
use dbc_parser::overlay::apply_supplement;
use dbc_parser::overlay::apply_supplements;
use dbc_parser::parse::Accumulators;
use dbc_parser::rows::ItemDisplayInfoRowData;
use dbc_parser::rows::ItemRowData;
use dbc_parser::rows::ItemSetRowData;
use dbc_parser::rows::ItemSubClassRowData;
use dbc_parser::rows::SpellDescVarsRowData;
use dbc_parser::rows::SpellRowData;
use dbc_parser::store::Store;
use dbc_parser::utils::OriginalItemChecker;

fn accs_with(
    items: Vec<ItemRowData>,
    displays: Vec<ItemDisplayInfoRowData>,
    subs: Vec<ItemSubClassRowData>,
    sets: Vec<ItemSetRowData>,
    spells: Vec<SpellRowData>,
    vars: Vec<SpellDescVarsRowData>,
) -> Accumulators {
    let mut accs = Accumulators::new();
    accs.items = dbc_parser::parse::item::Items { store: Store { rows: items } };
    accs.item_display_infos =
        dbc_parser::parse::item_display_info::ItemDisplayInfos { store: Store { rows: displays } };
    accs.item_sub_classes =
        dbc_parser::parse::item_sub_class::ItemSubClasses { store: Store { rows: subs } };
    accs.item_sets = dbc_parser::parse::item_sets::ItemSets { store: Store { rows: sets } };
    accs.spells = dbc_parser::parse::spells::Spells { store: Store { rows: spells } };
    accs.spell_description_vars =
        dbc_parser::parse::spell_description_vars::SpellDescriptionVars {
            store: Store { rows: vars },
        };
    accs
}

fn one_item(id: i32, class_id: i32, subclass_id: i32, display_info_id: i32, inv: i32) -> ItemRowData {
    ItemRowData { id, class_id, subclass_id, display_info_id, inventory_type: inv }
}

#[test]
fn join_resolves_icon_subclass_and_set() {
    let items = vec![one_item(100, 2, 7, 55, 17)];
    let displays = vec![ItemDisplayInfoRowData { id: 55, icon: String::from("INV_Sword_04") }];
    let subs = vec![ItemSubClassRowData {
        class_id: 2,
        sub_class_id: 7,
        display_name: String::from("One-Handed Swords"),
    }];
    let mut item_ids = vec![0i32; 17];
    item_ids[0] = 100;
    let mut spell_ids = vec![0i32; 8];
    spell_ids[0] = 900;
    spell_ids[1] = 901;
    spell_ids[2] = 77777;
    let mut thresholds = vec![0i32; 8];
    thresholds[0] = 2;
    thresholds[1] = 4;
    thresholds[2] = 6;
    let sets = vec![ItemSetRowData {
        id: 41,
        name: String::from("Gladiator"),
        item_ids,
        spell_ids,
        thresholds,
    }];
    let spells = vec![
        SpellRowData {
            id: 900,
            description_variables_id: 0,
            description: String::from("bonus one"),
        },
        SpellRowData {
            id: 901,
            description_variables_id: 5,
            description: String::from("raw description"),
        },
    ];
    let vars = vec![SpellDescVarsRowData { id: 5, variables: String::from("resolved text") }];
    let accs = accs_with(items, displays, subs, sets, spells, vars);

    let out = enrich_all(&accs);
    assert_eq!(out.len(), 1);
    let it = &out[0];
    assert_eq!(it.id, 100);
    assert_eq!(it.name, "<unknown>");
    assert_eq!(it.class, ItemClass::Weapon);
    assert_eq!(it.subclass, "One-Handed Swords");
    assert_eq!(
        it.inventory_icon,
        "https://wotlk.evowow.com/static/images/wow/icons/large/inv_sword_04.jpg"
    );
    assert_eq!(it.inventory_type, InventoryType::TwoHand);
    assert_eq!(it.required_level, 0);
    assert_eq!(it.rarity, Rarity::Common);
    let set = it.set.as_ref().unwrap();
    assert_eq!(set.id, 41);
    assert_eq!(set.name, "Gladiator");
    // Spell 900 falls back to its own description; spell 901 resolves its
    // description variable; 77777 is unresolved and is skipped; the unset
    // trailing entries resolve nothing.
    assert_eq!(
        set.spells,
        vec![(2u32, String::from("bonus one")), (4u32, String::from("resolved text"))]
    );
}

#[test]
fn join_repeated_over_unchanged_state_is_identical() {
    let items = vec![one_item(100, 2, 7, 55, 17), one_item(200, 4, 1, 0, 1)];
    let displays = vec![ItemDisplayInfoRowData { id: 55, icon: String::from("INV_Helm_11") }];
    let accs = accs_with(items, displays, vec![], vec![], vec![], vec![]);
    let first = enrich_all(&accs);
    let second = enrich_all(&accs);
    assert_eq!(first.len(), second.len());
    for (a, b) in first.iter().zip(second.iter()) {
        assert_eq!(a.id, b.id);
        assert_eq!(a.name, b.name);
        assert_eq!(a.subclass, b.subclass);
        assert_eq!(a.inventory_icon, b.inventory_icon);
        assert_eq!(a.required_level, b.required_level);
        assert_eq!(a.rarity, b.rarity);
        assert!(a.set.is_none() == b.set.is_none());
    }
}

#[test]
fn join_with_absent_display_info_leaves_icon_empty() {
    let items = vec![one_item(100, 2, 7, 55, 1)];
    let accs = accs_with(items, vec![], vec![], vec![], vec![], vec![]);
    let out = enrich_all(&accs);
    assert_eq!(out.len(), 1);
    let it = &out[0];
    assert_eq!(it.inventory_icon, "");
    assert_eq!(it.id, 100);
    assert_eq!(it.class, ItemClass::Weapon);
    assert_eq!(it.subclass, "");
    assert!(it.set.is_none());
}

fn supp_empty() -> PartialItemData {
    PartialItemData {
        name: String::new(),
        rarity_type: None,
        stats: None,
        spells: None,
        requires_level: None,
        requires: None,
        damage: None,
        added_damage: None,
        armor: None,
        speed: None,
        dps: None,
        bonding: None,
        hands: None,
    }
}

fn plain_item(id: i32, level: u32) -> Item {
    Item {
        id,
        name: String::from("thing"),
        class: ItemClass::Weapon,
        subclass: String::from("sub"),
        inventory_icon: String::new(),
        inventory_type: InventoryType::Head,
        set: None,
        required_level: level,
        stats: Vec::new(),
        spells: Vec::new(),
        requires: Vec::new(),
        rarity: Rarity::Common,
        damage: String::new(),
        added_damage: String::new(),
        armor: String::new(),
        speed: String::new(),
        dps: String::new(),
        bonding: String::new(),
        hands: String::new(),
    }
}

#[test]
fn overlay_sets_rarity_and_leaves_stats() {
    let mut sup = supp_empty();
    sup.rarity_type = Some(String::from("Epic"));
    let supp = SupplementalData { entries: vec![(String::from("100"), sup)] };
    let out = apply_supplements(vec![plain_item(100, 3)], &supp);
    assert_eq!(out.len(), 1);
    assert_eq!(out[0].rarity, Rarity::Epic);
    assert!(out[0].stats.is_empty());
    assert_eq!(out[0].name, "thing");
}

#[test]
fn overlay_empty_values_never_override() {
    let mut it = plain_item(1, 10);
    it.damage = String::from("5 - 9");
    it.stats = vec![String::from("+1 Agility")];
    let mut sup = supp_empty();
    sup.name = String::new();
    sup.damage = Some(String::new());
    sup.stats = Some(Vec::new());
    apply_supplement(&mut it, &sup);
    assert_eq!(it.name, "thing");
    assert_eq!(it.damage, "5 - 9");
    assert_eq!(it.stats, vec![String::from("+1 Agility")]);
}

#[test]
fn overlay_present_values_override() {
    let mut it = plain_item(1, 10);
    let mut sup = supp_empty();
    sup.name = String::from("Better Name");
    sup.requires_level = Some(58);
    sup.stats = Some(vec![String::from("+5 Stamina")]);
    sup.bonding = Some(String::from("Binds when picked up"));
    apply_supplement(&mut it, &sup);
    assert_eq!(it.name, "Better Name");
    assert_eq!(it.required_level, 58);
    assert_eq!(it.stats, vec![String::from("+5 Stamina")]);
    assert_eq!(it.bonding, "Binds when picked up");
}

#[test]
fn overlay_key_must_be_canonical() {
    let mut sup = supp_empty();
    sup.name = String::from("Should Not Apply");
    let supp = SupplementalData { entries: vec![(String::from("0100"), sup)] };
    let out = apply_supplements(vec![plain_item(100, 3)], &supp);
    assert_eq!(out[0].name, "thing");
}

#[test]
fn level_filter_cutoff_is_sixty() {
    let out = filter_by_level(vec![plain_item(1, 60), plain_item(2, 61), plain_item(3, 0)]);
    let ids: Vec<i32> = out.iter().map(|i| i.id).collect();
    assert_eq!(ids, vec![1, 3]);
}

#[test]
fn baseline_filter_drops_known_ids() {
    let checker = OriginalItemChecker::from_csv_text("entry\n2\n");
    let out = checker.filter_new_items(vec![plain_item(1, 1), plain_item(2, 1), plain_item(3, 1)]);
    let ids: Vec<i32> = out.iter().map(|i| i.id).collect();
    assert_eq!(ids, vec![1, 3]);
}

#[test]
fn sort_orders_by_identifier() {
    let out = sort_items(vec![plain_item(30, 1), plain_item(10, 1), plain_item(20, 1)]);
    let ids: Vec<i32> = out.iter().map(|i| i.id).collect();
    assert_eq!(ids, vec![10, 20, 30]);
}
