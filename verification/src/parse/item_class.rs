//! Accumulator for the item-class table.

use vstd::prelude::*;
use crate::rows::ItemClassRowData;
use crate::header::field_run;
use crate::header::push_field_run;
use crate::header::spec_table_ok;
use crate::header::table_ok;
use crate::store::Store;
use crate::store::lookup;
use crate::store::upsert_all;
use wow_dbc::DbcTable;

verus! {

/// What wow_dbc's item-class decoder yields on given bytes: the decoded
/// rows' pipeline-relevant fields, in row order; a failed decode yields
/// no rows.
pub uninterp spec fn decoded_item_classes(data: Seq<u8>) -> Seq<ItemClassRowData>;

/// The record field indices that hold string references in this table, as
/// its reader resolves them.
pub open spec fn string_ref_fields() -> Seq<u32> {
    field_run(3, 18)
}

/// The rows this table takes from a file: the decoder's output where the
/// file passes this table's header and string-region checks, and nothing
/// otherwise.
pub open spec fn accepted_item_classes(data: Seq<u8>) -> Seq<ItemClassRowData> {
    if spec_table_ok(data, 20, 80, string_ref_fields()) {
        decoded_item_classes(data)
    } else {
        Seq::empty()
    }
}

/// Relies on wow_dbc's `wrath_tables::item_class::ItemClass::read`: decodes
/// the byte image of one table file into fixed-layout rows, a function of the
/// bytes alone; on a malformed file it returns `Err`, taken here as no rows. The
/// table check required of callers keeps the reader's size arithmetic in
/// range and its byte demands met, and every record's string reference at
/// zero or inside the terminator-ended string block, so the read cannot
/// fault.
#[verifier::external_body]
fn decode_item_classes(data: &[u8]) -> (r: Vec<ItemClassRowData>)
    requires
        spec_table_ok(data@, 20, 80, string_ref_fields()),
    ensures
        r@ == decoded_item_classes(data@),
{
    match wow_dbc::wrath_tables::item_class::ItemClass::read(&mut &data[..]) {
        Ok(t) => t.rows.iter().map(
            |w| ItemClassRowData { class_id: w.class_id, name: w.class_name_lang.en_gb.clone() },
        ).collect(),
        Err(_) => Vec::new(),
    }
}

/// The item-class accumulator: one row per class identifier, last wins.
pub struct ItemClasses {
    pub store: Store<ItemClassRowData>,
}

impl View for ItemClasses {
    type V = Seq<ItemClassRowData>;

    open spec fn view(&self) -> Seq<ItemClassRowData> {
        self.store.rows@
    }
}

impl ItemClasses {
    pub fn new() -> (r: Self)
        ensures
            r@ =~= Seq::<ItemClassRowData>::empty(),
    {
        ItemClasses { store: Store::new() }
    }

    /// Decode one table file and ingest its rows in order, last wins.
    pub fn parse(&mut self, data: &[u8])
        ensures
            final(self)@ == upsert_all(old(self)@, accepted_item_classes(data@)),
    {
        let mut refs: Vec<u32> = Vec::new();
        push_field_run(&mut refs, 3, 18);
        proof {
            assert(refs@ =~= string_ref_fields());
        }
        if table_ok(data, 20, 80, &refs) {
            let rows = decode_item_classes(data);
            self.store.ingest_all(rows);
        }
    }

    pub fn get(&self, id: i32) -> (r: Option<&ItemClassRowData>)
        ensures
            match r {
                Some(v) => lookup(self@, (id as int, 0)) == Some(*v),
                None => lookup(self@, (id as int, 0)) is None,
            },
    {
        self.store.get_by_key(id, 0)
    }

    /// The accumulated row count, reported when a run finalizes.
    pub fn finish(&self) -> (n: usize)
        ensures
            n == self@.len(),
    {
        self.store.len()
    }
}

} // verus!
