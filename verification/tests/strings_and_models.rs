use dbc_parser::models::InventoryType;
use dbc_parser::models::ItemClass;
use dbc_parser::models::Rarity;
use dbc_parser::strutil::i32_to_string;
use dbc_parser::strutil::parse_i32;
use dbc_parser::strutil::str_eq;
use dbc_parser::locator::filter_mpq_names;
use dbc_parser::locator::is_dbc_name;
use dbc_parser::locator::has_mpq_extension;
use dbc_parser::locator::is_speech_name;

#[test]
fn inventory_type_from_raw_values() {
    assert_eq!(InventoryType::from(0), InventoryType::NoSlot);
    assert_eq!(InventoryType::from(1), InventoryType::Head);
    assert_eq!(InventoryType::from(17), InventoryType::TwoHand);
    assert_eq!(InventoryType::from(28), InventoryType::Relic);
    assert_eq!(InventoryType::from(29), InventoryType::NoSlot);
    assert_eq!(InventoryType::from(-3), InventoryType::NoSlot);
}

#[test]
fn item_class_from_raw_values() {
    assert_eq!(ItemClass::from(2), ItemClass::Weapon);
    assert_eq!(ItemClass::from(4), ItemClass::Armor);
    assert_eq!(ItemClass::from(14), ItemClass::Custom(14));
    assert_eq!(ItemClass::from(16), ItemClass::Glyph);
    assert_eq!(ItemClass::from(-1), ItemClass::Custom(-1));
}

#[test]
fn rarity_from_raw_values() {
    assert_eq!(Rarity::from(0), Rarity::Common);
    assert_eq!(Rarity::from(4), Rarity::Legendary);
    assert_eq!(Rarity::from(9), Rarity::Custom(9));
}

#[test]
fn rarity_from_labels_case_insensitive() {
    assert_eq!(Rarity::from(String::from("Epic")), Rarity::Epic);
    assert_eq!(Rarity::from(String::from("LEGENDARY")), Rarity::Legendary);
    assert_eq!(Rarity::from(String::from("uncommon")), Rarity::Uncommon);
    assert_eq!(Rarity::from(String::from("Rare")), Rarity::Rare);
    assert_eq!(Rarity::from(String::from("common")), Rarity::Common);
}

#[test]
fn rarity_from_unrecognized_label_parses_number() {
    assert_eq!(Rarity::from(String::from("7")), Rarity::Custom(7));
    assert_eq!(Rarity::from(String::from("-2")), Rarity::Custom(-2));
    assert_eq!(Rarity::from(String::from("mythic")), Rarity::Custom(0));
    assert_eq!(Rarity::from(String::from("")), Rarity::Custom(0));
}

#[test]
fn parse_i32_accepts_signed_decimal() {
    assert_eq!(parse_i32("123"), Some(123));
    assert_eq!(parse_i32("+42"), Some(42));
    assert_eq!(parse_i32("-7"), Some(-7));
    assert_eq!(parse_i32("007"), Some(7));
    assert_eq!(parse_i32("0"), Some(0));
    assert_eq!(parse_i32("-2147483648"), Some(i32::MIN));
    assert_eq!(parse_i32("2147483647"), Some(i32::MAX));
}

#[test]
fn parse_i32_rejects_junk_and_overflow() {
    assert_eq!(parse_i32(""), None);
    assert_eq!(parse_i32("+"), None);
    assert_eq!(parse_i32("-"), None);
    assert_eq!(parse_i32("12a"), None);
    assert_eq!(parse_i32(" 5"), None);
    assert_eq!(parse_i32("2147483648"), None);
    assert_eq!(parse_i32("-2147483649"), None);
    assert_eq!(parse_i32("99999999999999999999"), None);
}

#[test]
fn i32_to_string_writes_decimal() {
    assert_eq!(i32_to_string(0), "0");
    assert_eq!(i32_to_string(100), "100");
    assert_eq!(i32_to_string(-45), "-45");
    assert_eq!(i32_to_string(i32::MIN), "-2147483648");
    assert_eq!(i32_to_string(i32::MAX), "2147483647");
}

#[test]
fn str_eq_compares_by_characters() {
    assert!(str_eq("abc", "abc"));
    assert!(!str_eq("abc", "abd"));
    assert!(!str_eq("abc", "ab"));
    assert!(str_eq("", ""));
}

#[test]
fn archive_name_tests() {
    assert!(has_mpq_extension("common.mpq"));
    assert!(has_mpq_extension("patch.MPQ"));
    assert!(has_mpq_extension("a.b.MpQ"));
    assert!(!has_mpq_extension(".mpq"));
    assert!(!has_mpq_extension("mpq"));
    assert!(!has_mpq_extension("common.mpq3"));
    assert!(!has_mpq_extension("readme.txt"));
    assert!(is_speech_name("Speech-enUS.mpq"));
    assert!(is_speech_name("speech2.MPQ"));
    assert!(!is_speech_name("common.mpq"));
    assert!(is_dbc_name("DBFilesClient\\Item.dbc"));
    assert!(is_dbc_name("ITEM.DBC"));
    assert!(!is_dbc_name("Item.blp"));
    assert!(!is_dbc_name("dbc"));
}

#[test]
fn mpq_filter_excludes_speech_and_sorts() {
    let names = vec![
        String::from("patch-2.MPQ"),
        String::from("common.mpq"),
        String::from("speech-enUS.mpq"),
        String::from("Speech2.MPQ"),
        String::from("readme.txt"),
        String::from(".mpq"),
        String::from("B.mpq"),
        String::from("a.mpq"),
    ];
    let kept = filter_mpq_names(names);
    let got: Vec<&str> = kept.iter().map(|s| s.as_str()).collect();
    assert_eq!(got, vec!["B.mpq", "a.mpq", "common.mpq", "patch-2.MPQ"]);
}
