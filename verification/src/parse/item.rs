//! Accumulator for the item table.

use vstd::prelude::*;
use crate::rows::ItemRowData;
use crate::header::header_ok;
use crate::header::spec_header_ok;
use crate::store::Store;
use crate::store::lookup;
use crate::store::upsert_all;
use wow_dbc::DbcTable;

verus! {

/// What wow_dbc's item-table decoder yields on given bytes: the decoded
/// rows' pipeline-relevant fields, in row order; a failed decode yields
/// no rows.
pub uninterp spec fn decoded_items(data: Seq<u8>) -> Seq<ItemRowData>;

/// The rows this table takes from a file: the decoder's output where the
/// file opens with this table's well-formed header, and nothing otherwise.
pub open spec fn accepted_items(data: Seq<u8>) -> Seq<ItemRowData> {
    if spec_header_ok(data, 8, 32) {
        decoded_items(data)
    } else {
        Seq::empty()
    }
}

/// Relies on wow_dbc's `wrath_tables::item::Item::read`: decodes the byte
/// image of one table file into fixed-layout rows, a function of the bytes
/// alone; on a malformed file it returns `Err`, taken here as no rows. The
/// header check required of callers keeps the reader's size arithmetic in
/// range and its byte demands met; this table carries no string block, so
/// the read cannot fault.
#[verifier::external_body]
fn decode_items(data: &[u8]) -> (r: Vec<ItemRowData>)
    requires
        spec_header_ok(data@, 8, 32),
    ensures
        r@ == decoded_items(data@),
{
    match wow_dbc::wrath_tables::item::Item::read(&mut &data[..]) {
        Ok(t) => t.rows.iter().map(
            |w| ItemRowData {
                id: w.id.id,
                class_id: w.class_id,
                subclass_id: w.subclass_id,
                display_info_id: w.display_info_id,
                inventory_type: w.inventory_type,
            },
        ).collect(),
        Err(_) => Vec::new(),
    }
}

/// The item-table accumulator: one row per item identifier, last wins.
pub struct Items {
    pub store: Store<ItemRowData>,
}

impl View for Items {
    type V = Seq<ItemRowData>;

    open spec fn view(&self) -> Seq<ItemRowData> {
        self.store.rows@
    }
}

impl Items {
    pub fn new() -> (r: Self)
        ensures
            r@ =~= Seq::<ItemRowData>::empty(),
    {
        Items { store: Store::new() }
    }

    /// Decode one table file and ingest its rows in order, last wins.
    pub fn parse(&mut self, data: &[u8])
        ensures
            final(self)@ == upsert_all(old(self)@, accepted_items(data@)),
    {
        if header_ok(data, 8, 32) {
            let rows = decode_items(data);
            self.store.ingest_all(rows);
        }
    }

    pub fn get(&self, id: i32) -> (r: Option<&ItemRowData>)
        ensures
            match r {
                Some(v) => lookup(self@, (id as int, 0)) == Some(*v),
                None => lookup(self@, (id as int, 0)) is None,
            },
    {
        self.store.get_by_key(id, 0)
    }

    /// Every accumulated row, in ingestion order; the join walks these.
    pub fn iter_rows(&self) -> (r: &Vec<ItemRowData>)
        ensures
            r@ == self@,
    {
        &self.store.rows
    }

    /// The accumulated row count, reported when a run finalizes.
    pub fn finish(&self) -> (n: usize)
        ensures
            n == self@.len(),
    {
        self.store.len()
    }
}

} // verus!
