//! The enrichment join: resolve each item row's display icon, subclass name
//! and item-set chain against the accumulated tables into one denormalized
//! record. Every lookup is optional: an unresolved foreign key skips only its
//! own sub-field. The join reads the accumulators and never changes them.

use vstd::prelude::*;
use vstd::string::*;
use crate::models::Item;
use crate::models::ItemSet;
use crate::models::Rarity;
use crate::models::spec_inventory_type;
use crate::models::spec_item_class;
use crate::parse::Accumulators;
use crate::parse::item_sets::ItemSets;
use crate::parse::item_sets::first_set_match;
use crate::parse::item_display_info::ItemDisplayInfos;
use crate::parse::item_sub_class::ItemSubClasses;
use crate::parse::spell_description_vars::SpellDescriptionVars;
use crate::parse::spells::Spells;
use crate::rows::ItemDisplayInfoRowData;
use crate::rows::ItemRowData;
use crate::rows::ItemSetRowData;
use crate::rows::ItemSubClassRowData;
use crate::rows::SpellDescVarsRowData;
use crate::rows::SpellRowData;
use crate::store::lookup;
use crate::strutil::lower_of;
use crate::strutil::lowercase;

verus! {

/// The fixed icon-hosting URL around a lowercased icon filename.
pub open spec fn spec_icon_url(icon: Seq<char>) -> Seq<char> {
    "https://wotlk.evowow.com/static/images/wow/icons/large/"@ + lower_of(icon) + ".jpg"@
}

/// The text attached to a granted spell: its description variable's text
/// when that foreign key resolves, else the spell's own description.
pub open spec fn spec_spell_text(sp: SpellRowData, vv: Seq<SpellDescVarsRowData>) -> String {
    match lookup(vv, (sp.description_variables_id as int, 0)) {
        Some(v) => v.variables,
        None => sp.description,
    }
}

/// A set threshold reinterpreted as unsigned, as the record schema stores it.
pub open spec fn spec_threshold_u32(t: i32) -> u32 {
    if t >= 0 {
        t as u32
    } else {
        (t + 0x1_0000_0000) as u32
    }
}

/// The number of (spell, threshold) pairs a set row zips positionally.
pub open spec fn spec_pair_count(st: ItemSetRowData) -> int {
    if st.spell_ids@.len() <= st.thresholds@.len() {
        st.spell_ids@.len() as int
    } else {
        st.thresholds@.len() as int
    }
}

/// The (threshold, text) pairs of a set's first `n` (spell, threshold)
/// entries, keeping original order and skipping unresolved spells.
pub open spec fn spec_set_spells_upto(
    st: ItemSetRowData,
    pv: Seq<SpellRowData>,
    vv: Seq<SpellDescVarsRowData>,
    n: int,
) -> Seq<(u32, String)>
    decreases n,
{
    if n <= 0 {
        Seq::empty()
    } else {
        let prev = spec_set_spells_upto(st, pv, vv, n - 1);
        match lookup(pv, (st.spell_ids@[n - 1] as int, 0)) {
            Some(sp) => prev.push(
                (spec_threshold_u32(st.thresholds@[n - 1]), spec_spell_text(sp, vv)),
            ),
            None => prev,
        }
    }
}

/// All (threshold, text) pairs a set row resolves to.
pub open spec fn spec_set_spells(
    st: ItemSetRowData,
    pv: Seq<SpellRowData>,
    vv: Seq<SpellDescVarsRowData>,
) -> Seq<(u32, String)> {
    spec_set_spells_upto(st, pv, vv, spec_pair_count(st))
}

/// Everything the join promises of one derived record, over the accumulator
/// views alone.
pub open spec fn enrich_post(
    row: ItemRowData,
    dv: Seq<ItemDisplayInfoRowData>,
    sv: Seq<ItemSubClassRowData>,
    tv: Seq<ItemSetRowData>,
    pv: Seq<SpellRowData>,
    vv: Seq<SpellDescVarsRowData>,
    it: Item,
) -> bool {
    &&& it.id == row.id
    &&& it.name@ == "<unknown>"@
    &&& it.class == spec_item_class(row.class_id)
    &&& match lookup(sv, (row.class_id as int, row.subclass_id as int)) {
        Some(sc) => it.subclass == sc.display_name,
        None => it.subclass@ == Seq::<char>::empty(),
    }
    &&& match lookup(dv, (row.display_info_id as int, 0)) {
        Some(d) => it.inventory_icon@ == spec_icon_url(d.icon@),
        None => it.inventory_icon@ == Seq::<char>::empty(),
    }
    &&& it.inventory_type == spec_inventory_type(row.inventory_type)
    &&& {
        let si = first_set_match(tv, seq![row.id]);
        if si == -1 {
            it.set is None
        } else {
            match it.set {
                Some(s) => s.id == tv[si].id && s.name == tv[si].name && s.spells@
                    == spec_set_spells(tv[si], pv, vv),
                None => false,
            }
        }
    }
    &&& it.required_level == 0
    &&& it.stats@ == Seq::<String>::empty()
    &&& it.spells@ == Seq::<String>::empty()
    &&& it.requires@ == Seq::<String>::empty()
    &&& it.rarity == Rarity::Common
    &&& it.damage@ == Seq::<char>::empty()
    &&& it.added_damage@ == Seq::<char>::empty()
    &&& it.armor@ == Seq::<char>::empty()
    &&& it.speed@ == Seq::<char>::empty()
    &&& it.dps@ == Seq::<char>::empty()
    &&& it.bonding@ == Seq::<char>::empty()
    &&& it.hands@ == Seq::<char>::empty()
}

fn threshold_to_u32(t: i32) -> (r: u32)
    ensures
        r == spec_threshold_u32(t),
{
    if t >= 0 {
        t as u32
    } else {
        ((t as i64) + 0x1_0000_0000i64) as u32
    }
}

/// Derive the denormalized record for one item row.
pub fn enrich(
    row: &ItemRowData,
    displays: &ItemDisplayInfos,
    sub_classes: &ItemSubClasses,
    sets: &ItemSets,
    spells: &Spells,
    desc_vars: &SpellDescriptionVars,
) -> (it: Item)
    ensures
        enrich_post(*row, displays@, sub_classes@, sets@, spells@, desc_vars@, it),
{
    let mut it = Item::from_row(row);
    match displays.get(row.display_info_id) {
        Some(d) => {
            let low = lowercase(d.icon.as_str());
            it.inventory_icon = String::from_str(
                "https://wotlk.evowow.com/static/images/wow/icons/large/",
            ).concat(low.as_str()).concat(".jpg");
        },
        None => {},
    }
    match sub_classes.get(row.class_id, row.subclass_id) {
        Some(sc) => {
            it.subclass = sc.display_name.clone();
        },
        None => {},
    }
    let ids = vec![row.id];
    assert(ids@ =~= seq![row.id]);
    match sets.find_by_item_ids(&ids) {
        Some(st) => {
            let count = if st.spell_ids.len() <= st.thresholds.len() {
                st.spell_ids.len()
            } else {
                st.thresholds.len()
            };
            let mut pairs: Vec<(u32, String)> = Vec::new();
            let mut i: usize = 0;
            while i < count
                invariant
                    0 <= i <= count,
                    count == spec_pair_count(*st),
                    count <= st.spell_ids@.len(),
                    count <= st.thresholds@.len(),
                    pairs@ == spec_set_spells_upto(*st, spells@, desc_vars@, i as int),
                decreases count - i,
            {
                let sid = st.spell_ids[i];
                match spells.get(sid) {
                    Some(sp) => {
                        let txt = match desc_vars.get(sp.description_variables_id) {
                            Some(v) => v.variables.clone(),
                            None => sp.description.clone(),
                        };
                        let thr = threshold_to_u32(st.thresholds[i]);
                        pairs.push((thr, txt));
                    },
                    None => {},
                }
                i = i + 1;
            }
            it.set = Some(ItemSet { id: st.id, name: st.name.clone(), spells: pairs });
        },
        None => {},
    }
    it
}

/// Derive one record per accumulated item row, in accumulator order.
pub fn enrich_all(accs: &Accumulators) -> (r: Vec<Item>)
    ensures
        r@.len() == accs.items@.len(),
        forall|i: int|
            0 <= i < r@.len() ==> enrich_post(
                accs.items@[i],
                accs.item_display_infos@,
                accs.item_sub_classes@,
                accs.item_sets@,
                accs.spells@,
                accs.spell_description_vars@,
                #[trigger] r@[i],
            ),
{
    let rows = accs.items.iter_rows();
    let n = rows.len();
    let mut out: Vec<Item> = Vec::new();
    let mut i: usize = 0;
    while i < n
        invariant
            0 <= i <= n,
            n == rows@.len(),
            rows@ == accs.items@,
            out@.len() == i,
            forall|j: int|
                0 <= j < i ==> enrich_post(
                    accs.items@[j],
                    accs.item_display_infos@,
                    accs.item_sub_classes@,
                    accs.item_sets@,
                    accs.spells@,
                    accs.spell_description_vars@,
                    #[trigger] out@[j],
                ),
        decreases n - i,
    {
        let it = enrich(
            &rows[i],
            &accs.item_display_infos,
            &accs.item_sub_classes,
            &accs.item_sets,
            &accs.spells,
            &accs.spell_description_vars,
        );
        out.push(it);
        i = i + 1;
    }
    out
}

/// Field-level agreement of two derived records: equal identifiers, enums
/// and counts, and character-for-character equal text.
pub open spec fn item_view_eq(a: Item, b: Item) -> bool {
    &&& a.id == b.id
    &&& a.name@ == b.name@
    &&& a.class == b.class
    &&& a.subclass@ == b.subclass@
    &&& a.inventory_icon@ == b.inventory_icon@
    &&& a.inventory_type == b.inventory_type
    &&& match (a.set, b.set) {
        (Some(x), Some(y)) => x.id == y.id && x.name@ == y.name@ && x.spells@ == y.spells@,
        (None, None) => true,
        _ => false,
    }
    &&& a.required_level == b.required_level
    &&& a.stats@ == b.stats@
    &&& a.spells@ == b.spells@
    &&& a.requires@ == b.requires@
    &&& a.rarity == b.rarity
    &&& a.damage@ == b.damage@
    &&& a.added_damage@ == b.added_damage@
    &&& a.armor@ == b.armor@
    &&& a.speed@ == b.speed@
    &&& a.dps@ == b.dps@
    &&& a.bonding@ == b.bonding@
    &&& a.hands@ == b.hands@
}

/// The join is pure over accumulator state: two records derived from the
/// same row over the same accumulator views agree on every field.
pub proof fn lemma_enrich_deterministic(
    row: ItemRowData,
    dv: Seq<ItemDisplayInfoRowData>,
    sv: Seq<ItemSubClassRowData>,
    tv: Seq<ItemSetRowData>,
    pv: Seq<SpellRowData>,
    vv: Seq<SpellDescVarsRowData>,
    a: Item,
    b: Item,
)
    requires
        enrich_post(row, dv, sv, tv, pv, vv, a),
        enrich_post(row, dv, sv, tv, pv, vv, b),
    ensures
        item_view_eq(a, b),
{
}

/// Repeating the join over unchanged accumulator state yields the identical
/// record sequence, field for field.
pub proof fn lemma_join_pure(
    rows: Seq<ItemRowData>,
    dv: Seq<ItemDisplayInfoRowData>,
    sv: Seq<ItemSubClassRowData>,
    tv: Seq<ItemSetRowData>,
    pv: Seq<SpellRowData>,
    vv: Seq<SpellDescVarsRowData>,
    r1: Seq<Item>,
    r2: Seq<Item>,
)
    requires
        r1.len() == rows.len(),
        r2.len() == rows.len(),
        forall|i: int|
            0 <= i < rows.len() ==> enrich_post(rows[i], dv, sv, tv, pv, vv, #[trigger] r1[i]),
        forall|i: int|
            0 <= i < rows.len() ==> enrich_post(rows[i], dv, sv, tv, pv, vv, #[trigger] r2[i]),
    ensures
        forall|i: int| 0 <= i < rows.len() ==> item_view_eq(#[trigger] r1[i], #[trigger] r2[i]),
{
}

} // verus!
