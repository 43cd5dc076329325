use dbc_parser::parse::DbcFile;
use dbc_parser::parse::Accumulators;
use dbc_parser::parse::parse_dbcs;
use dbc_parser::parse::item::Items;
use dbc_parser::rows::ItemRowData;
use dbc_parser::rows::ItemSetRowData;
use dbc_parser::store::Store;
use dbc_parser::parse::item_sets::ItemSets;
use dbc_parser::utils::OriginalItemChecker;

use wow_dbc::DbcTable;
use wow_dbc::wrath_tables::item::Item as DbcItem;
use wow_dbc::wrath_tables::item::ItemKey;
use wow_dbc::wrath_tables::item::ItemRow;
use wow_dbc::wrath_tables::material::MaterialKey;

fn item_row(id: i32, class_id: i32, subclass_id: i32, display_info_id: i32, inv: i32) -> ItemRow {
    ItemRow {
        id: ItemKey::new(id),
        class_id,
        subclass_id,
        sound_override_subclass_id: 0,
        material: MaterialKey::new(0),
        display_info_id,
        inventory_type: inv,
        sheathe_type: 0,
    }
}

fn item_table_bytes(rows: Vec<ItemRow>) -> Vec<u8> {
    let table = DbcItem { rows };
    let mut out: Vec<u8> = Vec::new();
    table.write(&mut out).unwrap();
    out
}

#[test]
fn decoded_rows_reach_the_accumulator() {
    let bytes = item_table_bytes(vec![item_row(7, 2, 3, 11, 13), item_row(9, 4, 1, 0, 1)]);
    let mut items = Items::new();
    items.parse(&bytes);
    assert_eq!(items.finish(), 2);
    let row = items.get(7).unwrap();
    assert_eq!(row.class_id, 2);
    assert_eq!(row.subclass_id, 3);
    assert_eq!(row.display_info_id, 11);
    assert_eq!(row.inventory_type, 13);
    assert!(items.get(8).is_none());
}

#[test]
fn accumulator_last_ingest_wins() {
    let bytes = item_table_bytes(vec![
        item_row(100, 2, 0, 0, 10),
        item_row(101, 4, 0, 0, 1),
        item_row(100, 2, 0, 0, 20),
    ]);
    let mut items = Items::new();
    items.parse(&bytes);
    assert_eq!(items.finish(), 2);
    assert_eq!(items.get(100).unwrap().inventory_type, 20);
}

#[test]
fn later_archive_overrides_earlier_one() {
    // Two archives, lexicographically ordered names, each carrying a row for
    // the same identifier: the row from the later-processed archive wins.
    let base = item_table_bytes(vec![item_row(100, 2, 0, 0, 10)]);
    let localized = item_table_bytes(vec![item_row(100, 2, 0, 0, 20)]);
    let files = vec![
        DbcFile { name: String::from("DBFilesClient\\Item.dbc"), data: base },
        DbcFile { name: String::from("DBFilesClient\\Item.dbc"), data: localized },
    ];
    let mut accs = Accumulators::new();
    parse_dbcs(&mut accs, &files);
    assert_eq!(accs.items.finish(), 1);
    assert_eq!(accs.items.get(100).unwrap().inventory_type, 20);
}

#[test]
fn garbage_bytes_are_isolated() {
    let mut accs = Accumulators::new();
    let files = vec![
        DbcFile { name: String::from("broken.dbc"), data: vec![1, 2, 3, 4, 5] },
        DbcFile {
            name: String::from("Item.dbc"),
            data: item_table_bytes(vec![item_row(5, 0, 0, 0, 0)]),
        },
        DbcFile { name: String::from("not_a_table.txt"), data: vec![9, 9, 9] },
    ];
    parse_dbcs(&mut accs, &files);
    assert_eq!(accs.items.finish(), 1);
    assert_eq!(accs.item_sets.finish(), 0);
    assert_eq!(accs.spells.finish(), 0);
}

fn dbc_header_bytes(rc: u32, fc: u32, rs: u32, sbs: u32) -> Vec<u8> {
    let mut v: Vec<u8> = Vec::new();
    v.extend_from_slice(&0x43424457u32.to_le_bytes());
    v.extend_from_slice(&rc.to_le_bytes());
    v.extend_from_slice(&fc.to_le_bytes());
    v.extend_from_slice(&rs.to_le_bytes());
    v.extend_from_slice(&sbs.to_le_bytes());
    v
}

#[test]
fn header_check_accepts_written_tables() {
    let bytes = item_table_bytes(vec![item_row(1, 0, 0, 0, 0)]);
    assert!(dbc_parser::header::header_ok(&bytes, 8, 32));
    assert!(!dbc_parser::header::header_ok(&bytes, 20, 80));
    assert!(!dbc_parser::header::header_ok(&[0u8; 8], 8, 32));
}

#[test]
fn oversized_record_count_is_rejected() {
    // A header whose record area would overflow 32-bit size arithmetic
    // contributes nothing and must not fault.
    let bytes = dbc_header_bytes(0x0800_0000, 8, 32, 0);
    let mut items = Items::new();
    items.parse(&bytes);
    assert_eq!(items.finish(), 0);
}

#[test]
fn truncated_table_is_rejected() {
    // A header claiming more record bytes than the file holds.
    let mut bytes = dbc_header_bytes(2, 8, 32, 0);
    bytes.extend_from_slice(&[0u8; 16]);
    let mut items = Items::new();
    items.parse(&bytes);
    assert_eq!(items.finish(), 0);
}

fn set_row(id: i32, members: &[i32]) -> ItemSetRowData {
    let mut item_ids = vec![0i32; 17];
    for (i, m) in members.iter().enumerate() {
        item_ids[i] = *m;
    }
    ItemSetRowData {
        id,
        name: format!("set-{}", id),
        item_ids,
        spell_ids: vec![0i32; 8],
        thresholds: vec![0i32; 8],
    }
}

#[test]
fn find_by_item_ids_takes_first_matching_set() {
    let sets = ItemSets {
        store: Store { rows: vec![set_row(1, &[40, 41]), set_row(2, &[42]), set_row(3, &[42])] },
    };
    let found = sets.find_by_item_ids(&vec![42]).unwrap();
    assert_eq!(found.id, 2);
    assert!(sets.find_by_item_ids(&vec![99]).is_none());
}

#[test]
fn baseline_from_csv_skips_unparsable_rows() {
    let checker = OriginalItemChecker::from_csv_text(
        "entry,name\n42,Sword\nbad,Junk\n77,Shield\n",
    );
    assert!(!checker.is_item_new(42));
    assert!(!checker.is_item_new(77));
    assert!(checker.is_item_new(43));
    // "entry" is the header row, not data.
    let batch = checker.check_items_batch(vec![42, 43]);
    assert_eq!(batch, vec![(42, false), (43, true)]);
}

#[test]
fn store_ingest_replaces_in_place() {
    let mut store: Store<ItemRowData> = Store::new();
    store.ingest(ItemRowData { id: 1, class_id: 2, subclass_id: 0, display_info_id: 0, inventory_type: 0 });
    store.ingest(ItemRowData { id: 2, class_id: 4, subclass_id: 0, display_info_id: 0, inventory_type: 0 });
    store.ingest(ItemRowData { id: 1, class_id: 9, subclass_id: 0, display_info_id: 0, inventory_type: 0 });
    assert_eq!(store.len(), 2);
    assert_eq!(store.get_by_key(1, 0).unwrap().class_id, 9);
    assert_eq!(store.get_by_key(2, 0).unwrap().class_id, 4);
}
