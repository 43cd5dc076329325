//! The baseline filter: identifiers already present in the reference
//! inventory table, loaded once from tabular text and read-only thereafter.
//! A record survives only if its identifier is absent from the baseline.

use vstd::prelude::*;
use crate::models::Item;
use crate::strutil::parse_i32;
use crate::strutil::spec_parse_i32;
use std::collections::HashSet;

verus! {

/// What csv's reader yields on given tabular text: the first field of each
/// record after the header row, in record order; records it cannot parse
/// contribute nothing. A function of the text alone.
pub uninterp spec fn csv_first_fields_of(content: Seq<char>) -> Seq<String>;

/// Relies on csv's `Reader::from_reader`, `records` and `StringRecord::get`:
/// reads tabular text with a header row and hands back each record's first
/// field, a function of the text alone; malformed records are skipped.
#[verifier::external_body]
fn csv_first_fields(content: &str) -> (r: Vec<String>)
    ensures
        r@ == csv_first_fields_of(content@),
{
    let mut rdr = csv::Reader::from_reader(content.as_bytes());
    let mut out: Vec<String> = Vec::new();
    for rec in rdr.records() {
        if let Ok(rec) = rec {
            if let Some(field) = rec.get(0) {
                out.push(field.to_string());
            }
        }
    }
    out
}

/// The identifiers among a field list: every value some field parses to.
pub open spec fn ids_of_fields(fields: Seq<String>) -> Set<i32> {
    Set::new(
        |v: i32|
            exists|j: int|
                0 <= j < fields.len() && spec_parse_i32((#[trigger] fields[j])@) == Some(v),
    )
}

/// The baseline key set a tabular text defines: the integer-parsable first
/// fields of its records.
pub open spec fn spec_baseline_ids(content: Seq<char>) -> Set<i32> {
    ids_of_fields(csv_first_fields_of(content))
}

/// The baseline reference: the set of item identifiers the target system
/// already knows.
pub struct OriginalItemChecker {
    existing_entries: HashSet<i32>,
}

impl View for OriginalItemChecker {
    type V = Set<i32>;

    closed spec fn view(&self) -> Set<i32> {
        self.existing_entries@
    }
}

impl OriginalItemChecker {
    /// Build the baseline from the reference table's text: parse each
    /// record's first field as an identifier, skipping unparsable rows.
    pub fn from_csv_text(content: &str) -> (r: Self)
        ensures
            r@ == spec_baseline_ids(content@),
    {
        let fields = csv_first_fields(content);
        let mut existing_entries: HashSet<i32> = HashSet::new();
        let n = fields.len();
        let mut i: usize = 0;
        while i < n
            invariant
                0 <= i <= n,
                n == fields@.len(),
                fields@ == csv_first_fields_of(content@),
                existing_entries@ =~= ids_of_fields(fields@.take(i as int)),
            decreases n - i,
        {
            let ghost before = existing_entries@;
            match parse_i32(fields[i].as_str()) {
                Some(v) => {
                    existing_entries.insert(v);
                },
                None => {},
            }
            proof {
                assert(fields@.take(i + 1).drop_last() =~= fields@.take(i as int));
                assert(forall|j: int| 0 <= j <= i ==> fields@.take(i + 1)[j] == fields@[j]);
                assert(existing_entries@ =~= ids_of_fields(fields@.take(i + 1))) by {
                    assert forall|v: i32| existing_entries@.contains(v) implies ids_of_fields(
                        fields@.take(i + 1),
                    ).contains(v) by {
                        if before.contains(v) {
                            let j = choose|j: int|
                                0 <= j < i && spec_parse_i32(
                                    (#[trigger] fields@.take(i as int)[j])@,
                                ) == Some(v);
                            assert(spec_parse_i32((fields@.take(i + 1)[j])@) == Some(v));
                        } else {
                            assert(spec_parse_i32((fields@.take(i + 1)[i as int])@) == Some(v));
                        }
                    }
                    assert forall|v: i32|
                        ids_of_fields(fields@.take(i + 1)).contains(v) implies existing_entries@
                        .contains(v) by {
                        let j = choose|j: int|
                            0 <= j <= i && spec_parse_i32((#[trigger] fields@.take(i + 1)[j])@)
                                == Some(v);
                        if j < i {
                            assert(spec_parse_i32((fields@.take(i as int)[j])@) == Some(v));
                            assert(before.contains(v));
                        }
                    }
                }
            }
            i = i + 1;
        }
        proof {
            assert(fields@.take(n as int) =~= fields@);
        }
        OriginalItemChecker { existing_entries }
    }

    /// An identifier is new when the baseline does not know it.
    pub fn is_item_new(&self, item_id: i32) -> (r: bool)
        ensures
            r == !self@.contains(item_id),
    {
        !self.existing_entries.contains(&item_id)
    }

    /// Pair each identifier with whether it is new, keeping order.
    pub fn check_items_batch(&self, item_ids: Vec<i32>) -> (r: Vec<(i32, bool)>)
        ensures
            r@.len() == item_ids@.len(),
            forall|i: int|
                0 <= i < item_ids@.len() ==> #[trigger] r@[i] == (
                    item_ids@[i],
                    !self@.contains(item_ids@[i]),
                ),
    {
        let n = item_ids.len();
        let mut out: Vec<(i32, bool)> = Vec::new();
        let mut i: usize = 0;
        while i < n
            invariant
                0 <= i <= n,
                n == item_ids@.len(),
                out@.len() == i,
                forall|j: int|
                    0 <= j < i ==> #[trigger] out@[j] == (
                        item_ids@[j],
                        !self@.contains(item_ids@[j]),
                    ),
            decreases n - i,
        {
            let id = item_ids[i];
            let fresh = self.is_item_new(id);
            out.push((id, fresh));
            i = i + 1;
        }
        out
    }

    /// Retain only the records whose identifiers the baseline does not
    /// know, keeping order.
    pub fn filter_new_items(&self, items: Vec<Item>) -> (r: Vec<Item>)
        ensures
            r@ == items@.filter(|it: Item| !self@.contains(it.id)),
    {
        let ghost orig = items@;
        let ghost pred = |it: Item| !self@.contains(it.id);
        let mut rest = items;
        let mut out: Vec<Item> = Vec::new();
        while rest.len() > 0
            invariant
                out@ + rest@.filter(pred) =~= orig.filter(pred),
                pred == (|it: Item| !self@.contains(it.id)),
            decreases rest.len(),
        {
            let ghost before = rest@;
            let it = rest.remove(0);
            proof {
                assert(before.remove(0) =~= before.drop_first());
                crate::store::lemma_seq_filter_first(before, pred);
            }
            if self.is_item_new(it.id) {
                out.push(it);
            }
        }
        proof {
            assert(rest@.filter(pred) =~= Seq::<Item>::empty());
            assert(out@ =~= orig.filter(pred));
        }
        out
    }
}

} // verus!
