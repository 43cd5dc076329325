//! Accumulator for the item-set table, with the membership scan the join
//! uses to find the set an item belongs to.

use vstd::prelude::*;
use crate::rows::ItemSetRowData;
use crate::header::field_run;
use crate::header::push_field_run;
use crate::header::spec_table_ok;
use crate::header::table_ok;
use crate::store::Store;
use crate::store::lookup;
use crate::store::upsert_all;
use wow_dbc::DbcTable;

verus! {

/// What wow_dbc's item-set decoder yields on given bytes: the decoded rows'
/// pipeline-relevant fields (member item identifiers and the parallel spell
/// and threshold arrays), in row order; a failed decode yields no rows.
pub uninterp spec fn decoded_item_sets(data: Seq<u8>) -> Seq<ItemSetRowData>;

/// The record field indices that hold string references in this table, as
/// its reader resolves them.
pub open spec fn string_ref_fields() -> Seq<u32> {
    field_run(1, 16)
}

/// The rows this table takes from a file: the decoder's output where the
/// file passes this table's header and string-region checks, and nothing
/// otherwise.
pub open spec fn accepted_item_sets(data: Seq<u8>) -> Seq<ItemSetRowData> {
    if spec_table_ok(data, 53, 212, string_ref_fields()) {
        decoded_item_sets(data)
    } else {
        Seq::empty()
    }
}

/// Relies on wow_dbc's `wrath_tables::item_set::ItemSet::read`: decodes the
/// byte image of one table file into fixed-layout rows, a function of the
/// bytes alone; on a malformed file it returns `Err`, taken here as no rows. The
/// table check required of callers keeps the reader's size arithmetic in
/// range and its byte demands met, and every record's string reference at
/// zero or inside the terminator-ended string block, so the read cannot
/// fault.
#[verifier::external_body]
fn decode_item_sets(data: &[u8]) -> (r: Vec<ItemSetRowData>)
    requires
        spec_table_ok(data@, 53, 212, string_ref_fields()),
    ensures
        r@ == decoded_item_sets(data@),
{
    match wow_dbc::wrath_tables::item_set::ItemSet::read(&mut &data[..]) {
        Ok(t) => t.rows.iter().map(
            |w| ItemSetRowData {
                id: w.id.id,
                name: w.name_lang.en_gb.clone(),
                item_ids: w.item_id.to_vec(),
                spell_ids: w.set_spell_id.to_vec(),
                thresholds: w.set_threshold.to_vec(),
            },
        ).collect(),
        Err(_) => Vec::new(),
    }
}

/// Whether a set's member list mentions any of the given item identifiers.
pub open spec fn set_matches(st: ItemSetRowData, ids: Seq<i32>) -> bool {
    exists|i: int| 0 <= i < st.item_ids@.len() && ids.contains(#[trigger] st.item_ids@[i])
}

/// Index of the first set whose member list mentions one of the given item
/// identifiers, or -1 if none does.
pub open spec fn first_set_match(tv: Seq<ItemSetRowData>, ids: Seq<i32>) -> int
    decreases tv.len(),
{
    if tv.len() == 0 {
        -1
    } else if set_matches(tv[0], ids) {
        0
    } else {
        let r = first_set_match(tv.drop_first(), ids);
        if r == -1 {
            -1
        } else {
            r + 1
        }
    }
}

pub proof fn lemma_first_set_match(tv: Seq<ItemSetRowData>, ids: Seq<i32>)
    ensures
        first_set_match(tv, ids) == -1 ==> forall|i: int|
            0 <= i < tv.len() ==> !set_matches(#[trigger] tv[i], ids),
        first_set_match(tv, ids) != -1 ==> 0 <= first_set_match(tv, ids) < tv.len()
            && set_matches(tv[first_set_match(tv, ids)], ids) && forall|j: int|
            0 <= j < first_set_match(tv, ids) ==> !set_matches(#[trigger] tv[j], ids),
    decreases tv.len(),
{
    if tv.len() > 0 && !set_matches(tv[0], ids) {
        let t = tv.drop_first();
        lemma_first_set_match(t, ids);
        assert(forall|i: int| 1 <= i < tv.len() ==> #[trigger] tv[i] == t[i - 1]);
    }
}

pub proof fn lemma_first_set_match_at(tv: Seq<ItemSetRowData>, ids: Seq<i32>, i: int)
    requires
        0 <= i < tv.len(),
        set_matches(tv[i], ids),
        forall|j: int| 0 <= j < i ==> !set_matches(#[trigger] tv[j], ids),
    ensures
        first_set_match(tv, ids) == i,
    decreases tv.len(),
{
    if i > 0 {
        let t = tv.drop_first();
        assert(forall|j: int| 1 <= j < tv.len() ==> #[trigger] tv[j] == t[j - 1]);
        lemma_first_set_match_at(t, ids, i - 1);
    }
}

/// The item-set accumulator: one row per set identifier, last wins; the
/// rows keep their ingestion order, which fixes the membership scan.
pub struct ItemSets {
    pub store: Store<ItemSetRowData>,
}

impl View for ItemSets {
    type V = Seq<ItemSetRowData>;

    open spec fn view(&self) -> Seq<ItemSetRowData> {
        self.store.rows@
    }
}

fn vec_contains_i32(v: &Vec<i32>, x: i32) -> (r: bool)
    ensures
        r == v@.contains(x),
{
    let n = v.len();
    let mut i: usize = 0;
    while i < n
        invariant
            0 <= i <= n,
            n == v@.len(),
            forall|j: int| 0 <= j < i ==> v@[j] != x,
        decreases n - i,
    {
        if v[i] == x {
            return true;
        }
        i = i + 1;
    }
    false
}

impl ItemSets {
    pub fn new() -> (r: Self)
        ensures
            r@ =~= Seq::<ItemSetRowData>::empty(),
    {
        ItemSets { store: Store::new() }
    }

    /// Decode one table file and ingest its rows in order, last wins.
    pub fn parse(&mut self, data: &[u8])
        ensures
            final(self)@ == upsert_all(old(self)@, accepted_item_sets(data@)),
    {
        let mut refs: Vec<u32> = Vec::new();
        push_field_run(&mut refs, 1, 16);
        proof {
            assert(refs@ =~= string_ref_fields());
        }
        if table_ok(data, 53, 212, &refs) {
            let rows = decode_item_sets(data);
            self.store.ingest_all(rows);
        }
    }

    pub fn get(&self, id: i32) -> (r: Option<&ItemSetRowData>)
        ensures
            match r {
                Some(v) => lookup(self@, (id as int, 0)) == Some(*v),
                None => lookup(self@, (id as int, 0)) is None,
            },
    {
        self.store.get_by_key(id, 0)
    }

    /// The first accumulated set whose member list mentions one of the given
    /// item identifiers.
    pub fn find_by_item_ids(&self, item_ids: &Vec<i32>) -> (r: Option<&ItemSetRowData>)
        ensures
            match r {
                Some(v) => first_set_match(self@, item_ids@) != -1 && self@[first_set_match(
                    self@,
                    item_ids@,
                )] == *v,
                None => first_set_match(self@, item_ids@) == -1,
            },
    {
        let n = self.store.rows.len();
        let mut i: usize = 0;
        while i < n
            invariant
                0 <= i <= n,
                n == self@.len(),
                forall|j: int| 0 <= j < i ==> !set_matches(#[trigger] self@[j], item_ids@),
            decreases n - i,
        {
            let st = &self.store.rows[i];
            let m = st.item_ids.len();
            let mut p: usize = 0;
            let mut hit = false;
            while p < m
                invariant
                    0 <= p <= m,
                    0 <= i < self@.len(),
                    m == st.item_ids@.len(),
                    *st == self@[i as int],
                    hit ==> set_matches(self@[i as int], item_ids@),
                    !hit ==> forall|q: int|
                        0 <= q < p ==> !item_ids@.contains(#[trigger] st.item_ids@[q]),
                decreases m - p,
            {
                if vec_contains_i32(item_ids, st.item_ids[p]) {
                    hit = true;
                    proof {
                        assert(item_ids@.contains(st.item_ids@[p as int]));
                    }
                }
                p = p + 1;
            }
            if hit {
                proof {
                    lemma_first_set_match_at(self@, item_ids@, i as int);
                }
                return Some(&self.store.rows[i]);
            }
            proof {
                assert(!set_matches(self@[i as int], item_ids@));
            }
            i = i + 1;
        }
        proof {
            lemma_first_set_match(self@, item_ids@);
            if first_set_match(self@, item_ids@) != -1 {
                assert(set_matches(self@[first_set_match(self@, item_ids@)], item_ids@));
                assert(false);
            }
        }
        None
    }

    /// The accumulated row count, reported when a run finalizes.
    pub fn finish(&self) -> (n: usize)
        ensures
            n == self@.len(),
    {
        self.store.len()
    }
}

} // verus!
