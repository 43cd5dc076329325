use dbc_parser::join::enrich_all;
use dbc_parser::models::InventoryType;
use dbc_parser::models::ItemClass;
use dbc_parser::models::PartialItemData;
use dbc_parser::models::Rarity;
use dbc_parser::output::filter_by_level;
use dbc_parser::output::sort_items;
use dbc_parser::overlay::SupplementalData;
use dbc_parser::overlay::apply_supplements;
use dbc_parser::parse::Accumulators;
use dbc_parser::parse::DbcFile;
use dbc_parser::parse::parse_dbcs;
use dbc_parser::utils::OriginalItemChecker;

use wow_dbc::DbcTable;
use wow_dbc::ExtendedLocalizedString;
use wow_dbc::wrath_tables::item::Item as DbcItem;
use wow_dbc::wrath_tables::item::ItemKey;
use wow_dbc::wrath_tables::item::ItemRow;
use wow_dbc::wrath_tables::item_sub_class::ItemSubClass as DbcItemSubClass;
use wow_dbc::wrath_tables::item_sub_class::ItemSubClassRow;
use wow_dbc::wrath_tables::material::MaterialKey;

fn full_item_row(id: i32, class_id: i32, subclass_id: i32, display: i32, inv: i32) -> ItemRow {
    ItemRow {
        id: ItemKey::new(id),
        class_id,
        subclass_id,
        sound_override_subclass_id: 0,
        material: MaterialKey::new(0),
        display_info_id: display,
        inventory_type: inv,
        sheathe_type: 0,
    }
}

fn bytes_of(table: &impl DbcTable) -> Vec<u8> {
    let mut out: Vec<u8> = Vec::new();
    table.write(&mut out).unwrap();
    out
}

fn supp_record(rarity: Option<&str>, level: Option<u32>) -> PartialItemData {
    PartialItemData {
        name: String::new(),
        rarity_type: rarity.map(|s| s.to_string()),
        stats: None,
        spells: None,
        requires_level: level,
        requires: None,
        damage: None,
        added_damage: None,
        armor: None,
        speed: None,
        dps: None,
        bonding: None,
        hands: None,
    }
}

#[test]
fn whole_pipeline_produces_one_sorted_record() {
    // Two archive tiers: the later item table overrides id 100 and adds two
    // more items; a subclass table names (2, 7); display 55 is absent, so
    // the icon stays empty.
    let base_items = bytes_of(&DbcItem { rows: vec![full_item_row(100, 2, 7, 55, 10)] });
    let loc_items = bytes_of(&DbcItem {
        rows: vec![
            full_item_row(100, 2, 7, 55, 17),
            full_item_row(200, 4, 0, 0, 1),
            full_item_row(300, 0, 0, 0, 0),
        ],
    });
    let subs = bytes_of(&DbcItemSubClass {
        rows: vec![ItemSubClassRow {
            class_id: 2,
            sub_class_id: 7,
            prerequisite_proficiency: 0,
            postrequisite_proficiency: 0,
            flags: 0,
            display_flags: 0,
            weapon_parry_seq: 0,
            weapon_ready_seq: 0,
            weapon_attack_seq: 0,
            weapon_swing_size: 0,
            display_name_lang: ExtendedLocalizedString {
                en_gb: "One-Handed Swords".to_string(),
                ..Default::default()
            },
            verbose_name_lang: ExtendedLocalizedString::default(),
        }],
    });
    let files = vec![
        DbcFile { name: "DBFilesClient\\Item.dbc".to_string(), data: base_items },
        DbcFile { name: "DBFilesClient\\ItemSubClass.dbc".to_string(), data: subs },
        DbcFile { name: "DBFilesClient\\Item.dbc".to_string(), data: loc_items },
    ];
    let mut accs = Accumulators::new();
    parse_dbcs(&mut accs, &files);

    // Supplemental facts: id 100 gets a rarity and a level under the cutoff;
    // id 300 gets a level above the cutoff.
    let supp = SupplementalData {
        entries: vec![
            ("100".to_string(), supp_record(Some("Epic"), Some(58))),
            ("300".to_string(), supp_record(None, Some(61))),
        ],
    };

    let items = enrich_all(&accs);
    assert_eq!(items.len(), 3);
    let items = apply_supplements(items, &supp);
    let items = filter_by_level(items);

    // Baseline knows id 200 already.
    let checker = OriginalItemChecker::from_csv_text("entry,name\n200,Known\n");
    let items = checker.filter_new_items(items);
    let items = sort_items(items);

    assert_eq!(items.len(), 1);
    let it = &items[0];
    assert_eq!(it.id, 100);
    assert_eq!(it.class, ItemClass::Weapon);
    assert_eq!(it.subclass, "One-Handed Swords");
    assert_eq!(it.inventory_type, InventoryType::TwoHand);
    assert_eq!(it.inventory_icon, "");
    assert_eq!(it.rarity, Rarity::Epic);
    assert_eq!(it.required_level, 58);
    assert!(it.set.is_none());
}
