//! Accumulator for the item-subclass table, keyed on (class, subclass).

use vstd::prelude::*;
use crate::rows::ItemSubClassRowData;
use crate::header::field_run;
use crate::header::push_field_run;
use crate::header::spec_table_ok;
use crate::header::table_ok;
use crate::store::Store;
use crate::store::lookup;
use crate::store::upsert_all;
use wow_dbc::DbcTable;

verus! {

/// What wow_dbc's item-subclass decoder yields on given bytes: the decoded
/// rows' pipeline-relevant fields, in row order; a failed decode yields
/// no rows.
pub uninterp spec fn decoded_item_sub_classes(data: Seq<u8>) -> Seq<ItemSubClassRowData>;

/// The record field indices that hold string references in this table, as
/// its reader resolves them.
pub open spec fn string_ref_fields() -> Seq<u32> {
    field_run(10, 25) + field_run(27, 42)
}

/// The rows this table takes from a file: the decoder's output where the
/// file passes this table's header and string-region checks, and nothing
/// otherwise.
pub open spec fn accepted_item_sub_classes(data: Seq<u8>) -> Seq<ItemSubClassRowData> {
    if spec_table_ok(data, 44, 176, string_ref_fields()) {
        decoded_item_sub_classes(data)
    } else {
        Seq::empty()
    }
}

/// Relies on wow_dbc's `wrath_tables::item_sub_class::ItemSubClass::read`:
/// decodes the byte image of one table file into fixed-layout rows, a function
/// of the bytes alone; on a malformed file it returns `Err`, taken here as no rows. The
/// table check required of callers keeps the reader's size arithmetic in
/// range and its byte demands met, and every record's string reference at
/// zero or inside the terminator-ended string block, so the read cannot
/// fault.
#[verifier::external_body]
fn decode_item_sub_classes(data: &[u8]) -> (r: Vec<ItemSubClassRowData>)
    requires
        spec_table_ok(data@, 44, 176, string_ref_fields()),
    ensures
        r@ == decoded_item_sub_classes(data@),
{
    match wow_dbc::wrath_tables::item_sub_class::ItemSubClass::read(&mut &data[..]) {
        Ok(t) => t.rows.iter().map(
            |w| ItemSubClassRowData {
                class_id: w.class_id,
                sub_class_id: w.sub_class_id,
                display_name: w.display_name_lang.en_gb.clone(),
            },
        ).collect(),
        Err(_) => Vec::new(),
    }
}

/// The item-subclass accumulator: one row per (class, subclass) pair, last
/// wins.
pub struct ItemSubClasses {
    pub store: Store<ItemSubClassRowData>,
}

impl View for ItemSubClasses {
    type V = Seq<ItemSubClassRowData>;

    open spec fn view(&self) -> Seq<ItemSubClassRowData> {
        self.store.rows@
    }
}

impl ItemSubClasses {
    pub fn new() -> (r: Self)
        ensures
            r@ =~= Seq::<ItemSubClassRowData>::empty(),
    {
        ItemSubClasses { store: Store::new() }
    }

    /// Decode one table file and ingest its rows in order, last wins.
    pub fn parse(&mut self, data: &[u8])
        ensures
            final(self)@ == upsert_all(old(self)@, accepted_item_sub_classes(data@)),
    {
        let mut refs: Vec<u32> = Vec::new();
        push_field_run(&mut refs, 10, 25);
        push_field_run(&mut refs, 27, 42);
        proof {
            assert(refs@ =~= string_ref_fields());
        }
        if table_ok(data, 44, 176, &refs) {
            let rows = decode_item_sub_classes(data);
            self.store.ingest_all(rows);
        }
    }

    pub fn get(&self, class_id: i32, sub_class_id: i32) -> (r: Option<&ItemSubClassRowData>)
        ensures
            match r {
                Some(v) => lookup(self@, (class_id as int, sub_class_id as int)) == Some(*v),
                None => lookup(self@, (class_id as int, sub_class_id as int)) is None,
            },
    {
        self.store.get_by_key(class_id, sub_class_id)
    }

    /// The accumulated row count, reported when a run finalizes.
    pub fn finish(&self) -> (n: usize)
        ensures
            n == self@.len(),
    {
        self.store.len()
    }
}

} // verus!
