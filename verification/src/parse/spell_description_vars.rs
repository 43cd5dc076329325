//! Accumulator for the spell-description-variable table.

use vstd::prelude::*;
use crate::rows::SpellDescVarsRowData;
use crate::header::field_run;
use crate::header::push_field_run;
use crate::header::spec_table_ok;
use crate::header::table_ok;
use crate::store::Store;
use crate::store::lookup;
use crate::store::upsert_all;
use wow_dbc::DbcTable;

verus! {

/// What wow_dbc's spell-description-variable decoder yields on given bytes:
/// the decoded rows, in row order; a failed decode yields no rows.
pub uninterp spec fn decoded_spell_description_vars(data: Seq<u8>) -> Seq<SpellDescVarsRowData>;

/// The record field indices that hold string references in this table, as
/// its reader resolves them.
pub open spec fn string_ref_fields() -> Seq<u32> {
    field_run(1, 1)
}

/// The rows this table takes from a file: the decoder's output where the
/// file passes this table's header and string-region checks, and nothing
/// otherwise.
pub open spec fn accepted_spell_description_vars(data: Seq<u8>) -> Seq<SpellDescVarsRowData> {
    if spec_table_ok(data, 2, 8, string_ref_fields()) {
        decoded_spell_description_vars(data)
    } else {
        Seq::empty()
    }
}

/// Relies on wow_dbc's
/// `wrath_tables::spell_description_variables::SpellDescriptionVariables::read`:
/// decodes the byte image of one table file into fixed-layout rows, a function
/// of the bytes alone; on a malformed file it returns `Err`, taken here as no rows. The
/// table check required of callers keeps the reader's size arithmetic in
/// range and its byte demands met, and every record's string reference at
/// zero or inside the terminator-ended string block, so the read cannot
/// fault.
#[verifier::external_body]
fn decode_spell_description_vars(data: &[u8]) -> (r: Vec<SpellDescVarsRowData>)
    requires
        spec_table_ok(data@, 2, 8, string_ref_fields()),
    ensures
        r@ == decoded_spell_description_vars(data@),
{
    match wow_dbc::wrath_tables::spell_description_variables::SpellDescriptionVariables::read(
        &mut &data[..],
    ) {
        Ok(t) => t.rows.iter().map(
            |w| SpellDescVarsRowData { id: w.id.id, variables: w.variables.clone() },
        ).collect(),
        Err(_) => Vec::new(),
    }
}

/// The spell-description-variable accumulator: one row per identifier, last
/// wins.
pub struct SpellDescriptionVars {
    pub store: Store<SpellDescVarsRowData>,
}

impl View for SpellDescriptionVars {
    type V = Seq<SpellDescVarsRowData>;

    open spec fn view(&self) -> Seq<SpellDescVarsRowData> {
        self.store.rows@
    }
}

impl SpellDescriptionVars {
    pub fn new() -> (r: Self)
        ensures
            r@ =~= Seq::<SpellDescVarsRowData>::empty(),
    {
        SpellDescriptionVars { store: Store::new() }
    }

    /// Decode one table file and ingest its rows in order, last wins.
    pub fn parse(&mut self, data: &[u8])
        ensures
            final(self)@ == upsert_all(old(self)@, accepted_spell_description_vars(data@)),
    {
        let mut refs: Vec<u32> = Vec::new();
        push_field_run(&mut refs, 1, 1);
        proof {
            assert(refs@ =~= string_ref_fields());
        }
        if table_ok(data, 2, 8, &refs) {
            let rows = decode_spell_description_vars(data);
            self.store.ingest_all(rows);
        }
    }

    pub fn get(&self, id: i32) -> (r: Option<&SpellDescVarsRowData>)
        ensures
            match r {
                Some(v) => lookup(self@, (id as int, 0)) == Some(*v),
                None => lookup(self@, (id as int, 0)) is None,
            },
    {
        self.store.get_by_key(id, 0)
    }

    /// The accumulated row count, reported when a run finalizes.
    pub fn finish(&self) -> (n: usize)
        ensures
            n == self@.len(),
    {
        self.store.len()
    }
}

} // verus!
