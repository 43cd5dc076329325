use dbc_parser::parse::item_class::ItemClasses;
use dbc_parser::parse::item_display_info::ItemDisplayInfos;
use dbc_parser::parse::item_sets::ItemSets;
use dbc_parser::parse::item_sub_class::ItemSubClasses;
use dbc_parser::parse::spell_description_vars::SpellDescriptionVars;
use dbc_parser::parse::spells::Spells;

use wow_dbc::ExtendedLocalizedString;
use wow_dbc::DbcTable;
use wow_dbc::wrath_tables::item_class::{ItemClass as DbcItemClass, ItemClassRow};
use wow_dbc::wrath_tables::item_display_info::{
    ItemDisplayInfo as DbcItemDisplayInfo, ItemDisplayInfoKey, ItemDisplayInfoRow,
};
use wow_dbc::wrath_tables::item_set::{ItemSet as DbcItemSet, ItemSetKey, ItemSetRow};
use wow_dbc::wrath_tables::item_sub_class::{ItemSubClass as DbcItemSubClass, ItemSubClassRow};
use wow_dbc::wrath_tables::particle_color::ParticleColorKey;
use wow_dbc::wrath_tables::skill_line::SkillLineKey;
use wow_dbc::wrath_tables::spell::Spell as DbcSpell;
use wow_dbc::wrath_tables::spell_description_variables::{
    SpellDescriptionVariables as DbcSpellDescriptionVariables, SpellDescriptionVariablesKey,
    SpellDescriptionVariablesRow,
};
use wow_dbc::wrath_tables::spell_visual::SpellVisualKey;

fn loc(text: &str) -> ExtendedLocalizedString {
    ExtendedLocalizedString { en_gb: text.to_string(), ..Default::default() }
}

#[test]
fn display_info_rows_decode_with_first_icon() {
    let table = DbcItemDisplayInfo {
        rows: vec![ItemDisplayInfoRow {
            id: ItemDisplayInfoKey::new(55),
            model_name: [String::new(), String::new()],
            model_texture: [String::new(), String::new()],
            inventory_icon: ["INV_Sword_04".to_string(), "other".to_string()],
            geoset_group: [0, 0, 0],
            flags: 0,
            spell_visual_id: SpellVisualKey::new(0),
            group_sound_index: 0,
            helmet_geoset_vis_id: [0, 0],
            texture: [
                String::new(),
                String::new(),
                String::new(),
                String::new(),
                String::new(),
                String::new(),
                String::new(),
                String::new(),
            ],
            item_visual: 0,
            particle_color_id: ParticleColorKey::new(0),
        }],
    };
    let mut bytes: Vec<u8> = Vec::new();
    table.write(&mut bytes).unwrap();
    let mut accs = ItemDisplayInfos::new();
    accs.parse(&bytes);
    assert_eq!(accs.finish(), 1);
    assert_eq!(accs.get(55).unwrap().icon, "INV_Sword_04");
}

#[test]
fn item_class_rows_decode_with_name() {
    let table = DbcItemClass {
        rows: vec![ItemClassRow {
            class_id: 2,
            subclass_map_id: 0,
            flags: 0,
            class_name_lang: loc("Weapon"),
        }],
    };
    let mut bytes: Vec<u8> = Vec::new();
    table.write(&mut bytes).unwrap();
    let mut accs = ItemClasses::new();
    accs.parse(&bytes);
    assert_eq!(accs.finish(), 1);
    assert_eq!(accs.get(2).unwrap().name, "Weapon");
}

#[test]
fn sub_class_rows_decode_under_composite_key() {
    let table = DbcItemSubClass {
        rows: vec![ItemSubClassRow {
            class_id: 2,
            sub_class_id: 7,
            prerequisite_proficiency: 0,
            postrequisite_proficiency: 0,
            flags: 0,
            display_flags: 0,
            weapon_parry_seq: 0,
            weapon_ready_seq: 0,
            weapon_attack_seq: 0,
            weapon_swing_size: 0,
            display_name_lang: loc("One-Handed Swords"),
            verbose_name_lang: loc(""),
        }],
    };
    let mut bytes: Vec<u8> = Vec::new();
    table.write(&mut bytes).unwrap();
    let mut accs = ItemSubClasses::new();
    accs.parse(&bytes);
    assert_eq!(accs.finish(), 1);
    assert_eq!(accs.get(2, 7).unwrap().display_name, "One-Handed Swords");
    assert!(accs.get(7, 2).is_none());
}

#[test]
fn item_set_rows_decode_with_member_and_spell_arrays() {
    let mut item_id = [0i32; 17];
    item_id[0] = 100;
    item_id[1] = 101;
    let mut set_spell_id = [0i32; 8];
    set_spell_id[0] = 900;
    let mut set_threshold = [0i32; 8];
    set_threshold[0] = 2;
    let table = DbcItemSet {
        rows: vec![ItemSetRow {
            id: ItemSetKey::new(41),
            name_lang: loc("Gladiator"),
            item_id,
            set_spell_id,
            set_threshold,
            required_skill: SkillLineKey::new(0),
            required_skill_rank: 0,
        }],
    };
    let mut bytes: Vec<u8> = Vec::new();
    table.write(&mut bytes).unwrap();
    let mut accs = ItemSets::new();
    accs.parse(&bytes);
    assert_eq!(accs.finish(), 1);
    let row = accs.get(41).unwrap();
    assert_eq!(row.name, "Gladiator");
    assert_eq!(row.item_ids[0], 100);
    assert_eq!(row.item_ids[1], 101);
    assert_eq!(row.spell_ids[0], 900);
    assert_eq!(row.thresholds[0], 2);
    let found = accs.find_by_item_ids(&vec![101]).unwrap();
    assert_eq!(found.id, 41);
}

#[test]
fn spell_description_vars_decode() {
    let table = DbcSpellDescriptionVariables {
        rows: vec![SpellDescriptionVariablesRow {
            id: SpellDescriptionVariablesKey::new(5),
            variables: "resolved text".to_string(),
        }],
    };
    let mut bytes: Vec<u8> = Vec::new();
    table.write(&mut bytes).unwrap();
    let mut accs = SpellDescriptionVars::new();
    accs.parse(&bytes);
    assert_eq!(accs.finish(), 1);
    assert_eq!(accs.get(5).unwrap().variables, "resolved text");
}

#[test]
fn empty_spell_table_decodes_to_no_rows() {
    let table = DbcSpell { rows: vec![] };
    let mut bytes: Vec<u8> = Vec::new();
    table.write(&mut bytes).unwrap();
    let mut accs = Spells::new();
    accs.parse(&bytes);
    assert_eq!(accs.finish(), 0);
}

#[test]
fn out_of_range_string_offset_is_rejected() {
    // A record whose string reference points past the string block must
    // contribute nothing and must not fault. Field 3 of the first record
    // (the first localized-name reference) sits at bytes 32..36.
    let table = DbcItemClass {
        rows: vec![ItemClassRow {
            class_id: 2,
            subclass_map_id: 0,
            flags: 0,
            class_name_lang: loc("Weapon"),
        }],
    };
    let mut bytes: Vec<u8> = Vec::new();
    table.write(&mut bytes).unwrap();
    bytes[32..36].copy_from_slice(&0xFFFF_FF00u32.to_le_bytes());
    let mut accs = ItemClasses::new();
    accs.parse(&bytes);
    assert_eq!(accs.finish(), 0);
}

#[test]
fn unterminated_string_block_is_rejected() {
    // A string block whose last byte is not a terminator could send the
    // reader's scan past the end: the file contributes nothing.
    let table = DbcItemClass {
        rows: vec![ItemClassRow {
            class_id: 2,
            subclass_map_id: 0,
            flags: 0,
            class_name_lang: loc("Weapon"),
        }],
    };
    let mut bytes: Vec<u8> = Vec::new();
    table.write(&mut bytes).unwrap();
    let last = bytes.len() - 1;
    bytes[last] = 7;
    let mut accs = ItemClasses::new();
    accs.parse(&bytes);
    assert_eq!(accs.finish(), 0);
}

#[test]
fn mismatched_schema_is_rejected_silently() {
    // Bytes of one table offered to another accumulator: decode fails and
    // contributes nothing.
    let table = DbcSpellDescriptionVariables {
        rows: vec![SpellDescriptionVariablesRow {
            id: SpellDescriptionVariablesKey::new(5),
            variables: "x".to_string(),
        }],
    };
    let mut bytes: Vec<u8> = Vec::new();
    table.write(&mut bytes).unwrap();
    let mut accs = ItemClasses::new();
    accs.parse(&bytes);
    assert_eq!(accs.finish(), 0);
}
