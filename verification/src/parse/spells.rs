//! Accumulator for the spell table.

use vstd::prelude::*;
use crate::rows::SpellRowData;
use crate::header::field_run;
use crate::header::push_field_run;
use crate::header::spec_table_ok;
use crate::header::table_ok;
use crate::store::Store;
use crate::store::lookup;
use crate::store::upsert_all;
use wow_dbc::DbcTable;

verus! {

/// What wow_dbc's spell decoder yields on given bytes: the decoded rows'
/// pipeline-relevant fields, in row order; a failed decode yields no rows.
pub uninterp spec fn decoded_spells(data: Seq<u8>) -> Seq<SpellRowData>;

/// The record field indices that hold string references in this table, as
/// its reader resolves them.
pub open spec fn string_ref_fields() -> Seq<u32> {
    field_run(136, 151) + field_run(153, 168) + field_run(170, 185) + field_run(187, 202)
}

/// The rows this table takes from a file: the decoder's output where the
/// file passes this table's header and string-region checks, and nothing
/// otherwise.
pub open spec fn accepted_spells(data: Seq<u8>) -> Seq<SpellRowData> {
    if spec_table_ok(data, 234, 936, string_ref_fields()) {
        decoded_spells(data)
    } else {
        Seq::empty()
    }
}

/// Relies on wow_dbc's `wrath_tables::spell::Spell::read`: decodes the byte
/// image of one table file into fixed-layout rows, a function of the bytes
/// alone; on a malformed file it returns `Err`, taken here as no rows. The
/// table check required of callers keeps the reader's size arithmetic in
/// range and its byte demands met, and every record's string reference at
/// zero or inside the terminator-ended string block, so the read cannot
/// fault.
#[verifier::external_body]
fn decode_spells(data: &[u8]) -> (r: Vec<SpellRowData>)
    requires
        spec_table_ok(data@, 234, 936, string_ref_fields()),
    ensures
        r@ == decoded_spells(data@),
{
    match wow_dbc::wrath_tables::spell::Spell::read(&mut &data[..]) {
        Ok(t) => t.rows.iter().map(
            |w| SpellRowData {
                id: w.id.id,
                description_variables_id: w.description_variables_id.id,
                description: w.description_lang.en_gb.clone(),
            },
        ).collect(),
        Err(_) => Vec::new(),
    }
}

/// The spell accumulator: one row per spell identifier, last wins.
pub struct Spells {
    pub store: Store<SpellRowData>,
}

impl View for Spells {
    type V = Seq<SpellRowData>;

    open spec fn view(&self) -> Seq<SpellRowData> {
        self.store.rows@
    }
}

impl Spells {
    pub fn new() -> (r: Self)
        ensures
            r@ =~= Seq::<SpellRowData>::empty(),
    {
        Spells { store: Store::new() }
    }

    /// Decode one table file and ingest its rows in order, last wins.
    pub fn parse(&mut self, data: &[u8])
        ensures
            final(self)@ == upsert_all(old(self)@, accepted_spells(data@)),
    {
        let mut refs: Vec<u32> = Vec::new();
        push_field_run(&mut refs, 136, 151);
        push_field_run(&mut refs, 153, 168);
        push_field_run(&mut refs, 170, 185);
        push_field_run(&mut refs, 187, 202);
        proof {
            assert(refs@ =~= string_ref_fields());
        }
        if table_ok(data, 234, 936, &refs) {
            let rows = decode_spells(data);
            self.store.ingest_all(rows);
        }
    }

    pub fn get(&self, id: i32) -> (r: Option<&SpellRowData>)
        ensures
            match r {
                Some(v) => lookup(self@, (id as int, 0)) == Some(*v),
                None => lookup(self@, (id as int, 0)) is None,
            },
    {
        self.store.get_by_key(id, 0)
    }

    /// The accumulated row count, reported when a run finalizes.
    pub fn finish(&self) -> (n: usize)
        ensures
            n == self@.len(),
    {
        self.store.len()
    }
}

} // verus!
