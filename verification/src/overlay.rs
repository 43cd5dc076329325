//! The supplemental overlay: merge externally curated partial facts onto
//! derived records, field by field. A supplemental field overrides only when
//! it is present and, for text and list fields, non-empty; everything else
//! keeps its derived value.

use vstd::prelude::*;
use vstd::string::*;
use crate::models::Item;
use crate::models::PartialItemData;
use crate::models::Rarity;
use crate::models::spec_rarity_of_label;
use crate::strutil::clone_string_vec;
use crate::strutil::i32_to_string;
use crate::strutil::spec_i32_string;
use crate::strutil::str_eq;

verus! {

/// The loaded supplemental facts, keyed by the stringified item identifier.
pub struct SupplementalData {
    pub entries: Vec<(String, PartialItemData)>,
}

impl View for SupplementalData {
    type V = Seq<(String, PartialItemData)>;

    open spec fn view(&self) -> Seq<(String, PartialItemData)> {
        self.entries@
    }
}

/// Index of the first entry keyed by the canonical decimal string of `id`,
/// or -1 if there is none.
pub open spec fn first_supp_index(entries: Seq<(String, PartialItemData)>, id: i32) -> int
    decreases entries.len(),
{
    if entries.len() == 0 {
        -1
    } else if entries[0].0@ == spec_i32_string(id as int) {
        0
    } else {
        let r = first_supp_index(entries.drop_first(), id);
        if r == -1 {
            -1
        } else {
            r + 1
        }
    }
}

/// The supplemental record for an item identifier, if any entry's key is
/// its canonical decimal string.
pub open spec fn spec_supp_lookup(
    entries: Seq<(String, PartialItemData)>,
    id: i32,
) -> Option<PartialItemData> {
    let i = first_supp_index(entries, id);
    if i == -1 {
        None
    } else {
        Some(entries[i].1)
    }
}

proof fn lemma_first_supp_index(entries: Seq<(String, PartialItemData)>, id: i32)
    ensures
        first_supp_index(entries, id) == -1 ==> forall|i: int|
            0 <= i < entries.len() ==> (#[trigger] entries[i]).0@ != spec_i32_string(id as int),
        first_supp_index(entries, id) != -1 ==> 0 <= first_supp_index(entries, id) < entries.len()
            && entries[first_supp_index(entries, id)].0@ == spec_i32_string(id as int) && forall|
            j: int,
        |
            0 <= j < first_supp_index(entries, id) ==> (#[trigger] entries[j]).0@
                != spec_i32_string(id as int),
    decreases entries.len(),
{
    if entries.len() > 0 && entries[0].0@ != spec_i32_string(id as int) {
        let t = entries.drop_first();
        lemma_first_supp_index(t, id);
        assert(forall|i: int| 1 <= i < entries.len() ==> #[trigger] entries[i] == t[i - 1]);
    }
}

proof fn lemma_first_supp_index_at(entries: Seq<(String, PartialItemData)>, id: i32, i: int)
    requires
        0 <= i < entries.len(),
        entries[i].0@ == spec_i32_string(id as int),
        forall|j: int| 0 <= j < i ==> (#[trigger] entries[j]).0@ != spec_i32_string(id as int),
    ensures
        first_supp_index(entries, id) == i,
    decreases entries.len(),
{
    if i > 0 {
        let t = entries.drop_first();
        assert(forall|j: int| 1 <= j < entries.len() ==> #[trigger] entries[j] == t[j - 1]);
        lemma_first_supp_index_at(t, id, i - 1);
    }
}

impl SupplementalData {
    pub fn new() -> (r: Self)
        ensures
            r@ =~= Seq::<(String, PartialItemData)>::empty(),
    {
        SupplementalData { entries: Vec::new() }
    }

    /// Look an item identifier up under its canonical decimal key.
    pub fn lookup(&self, id: i32) -> (r: Option<&PartialItemData>)
        ensures
            match r {
                Some(v) => spec_supp_lookup(self@, id) == Some(*v),
                None => spec_supp_lookup(self@, id) is None,
            },
    {
        let key = i32_to_string(id);
        let n = self.entries.len();
        let mut i: usize = 0;
        while i < n
            invariant
                0 <= i <= n,
                n == self@.len(),
                key@ == spec_i32_string(id as int),
                forall|j: int|
                    0 <= j < i ==> (#[trigger] self@[j]).0@ != spec_i32_string(id as int),
            decreases n - i,
        {
            if str_eq(self.entries[i].0.as_str(), key.as_str()) {
                proof {
                    lemma_first_supp_index_at(self@, id, i as int);
                }
                return Some(&self.entries[i].1);
            }
            i = i + 1;
        }
        proof {
            lemma_first_supp_index(self@, id);
            if first_supp_index(self@, id) != -1 {
                assert(self@[first_supp_index(self@, id)].0@ == spec_i32_string(id as int));
                assert(false);
            }
        }
        None
    }
}

/// Everything the overlay promises of one record: present, non-empty
/// supplemental fields override; absent or empty ones leave the derived
/// value untouched; the rarity label, whenever supplied, is re-derived.
pub open spec fn overlay_post(prev: Item, sup: PartialItemData, it: Item) -> bool {
    &&& it.id == prev.id
    &&& it.class == prev.class
    &&& it.subclass == prev.subclass
    &&& it.inventory_icon == prev.inventory_icon
    &&& it.inventory_type == prev.inventory_type
    &&& it.set == prev.set
    &&& it.name == if sup.name@.len() > 0 {
        sup.name
    } else {
        prev.name
    }
    &&& it.rarity == match sup.rarity_type {
        Some(l) => spec_rarity_of_label(l@),
        None => prev.rarity,
    }
    &&& it.required_level == match sup.requires_level {
        Some(l) => l,
        None => prev.required_level,
    }
    &&& it.stats@ == match sup.stats {
        Some(v) => if v@.len() > 0 {
            v@
        } else {
            prev.stats@
        },
        None => prev.stats@,
    }
    &&& it.spells@ == match sup.spells {
        Some(v) => if v@.len() > 0 {
            v@
        } else {
            prev.spells@
        },
        None => prev.spells@,
    }
    &&& it.requires@ == match sup.requires {
        Some(v) => if v@.len() > 0 {
            v@
        } else {
            prev.requires@
        },
        None => prev.requires@,
    }
    &&& it.damage == match sup.damage {
        Some(s) => if s@.len() > 0 {
            s
        } else {
            prev.damage
        },
        None => prev.damage,
    }
    &&& it.added_damage == match sup.added_damage {
        Some(s) => if s@.len() > 0 {
            s
        } else {
            prev.added_damage
        },
        None => prev.added_damage,
    }
    &&& it.armor == match sup.armor {
        Some(s) => if s@.len() > 0 {
            s
        } else {
            prev.armor
        },
        None => prev.armor,
    }
    &&& it.speed == match sup.speed {
        Some(s) => if s@.len() > 0 {
            s
        } else {
            prev.speed
        },
        None => prev.speed,
    }
    &&& it.dps == match sup.dps {
        Some(s) => if s@.len() > 0 {
            s
        } else {
            prev.dps
        },
        None => prev.dps,
    }
    &&& it.bonding == match sup.bonding {
        Some(s) => if s@.len() > 0 {
            s
        } else {
            prev.bonding
        },
        None => prev.bonding,
    }
    &&& it.hands == match sup.hands {
        Some(s) => if s@.len() > 0 {
            s
        } else {
            prev.hands
        },
        None => prev.hands,
    }
}

/// Merge one supplemental record onto one derived record.
#[verifier::rlimit(100)]
#[verifier::spinoff_prover]
pub fn apply_supplement(it: &mut Item, sup: &PartialItemData)
    ensures
        overlay_post(*old(it), *sup, *final(it)),
{
    if !sup.name.as_str().is_empty() {
        it.name = sup.name.clone();
    }
    match &sup.rarity_type {
        Some(l) => {
            it.rarity = Rarity::from(l.clone());
        },
        None => {},
    }
    match sup.requires_level {
        Some(l) => {
            it.required_level = l;
        },
        None => {},
    }
    match &sup.stats {
        Some(v) => if v.len() > 0 {
            it.stats = clone_string_vec(v);
        },
        None => {},
    }
    match &sup.spells {
        Some(v) => if v.len() > 0 {
            it.spells = clone_string_vec(v);
        },
        None => {},
    }
    match &sup.requires {
        Some(v) => if v.len() > 0 {
            it.requires = clone_string_vec(v);
        },
        None => {},
    }
    match &sup.damage {
        Some(s) => if !s.as_str().is_empty() {
            it.damage = s.clone();
        },
        None => {},
    }
    match &sup.added_damage {
        Some(s) => if !s.as_str().is_empty() {
            it.added_damage = s.clone();
        },
        None => {},
    }
    match &sup.armor {
        Some(s) => if !s.as_str().is_empty() {
            it.armor = s.clone();
        },
        None => {},
    }
    match &sup.speed {
        Some(s) => if !s.as_str().is_empty() {
            it.speed = s.clone();
        },
        None => {},
    }
    match &sup.dps {
        Some(s) => if !s.as_str().is_empty() {
            it.dps = s.clone();
        },
        None => {},
    }
    match &sup.bonding {
        Some(s) => if !s.as_str().is_empty() {
            it.bonding = s.clone();
        },
        None => {},
    }
    match &sup.hands {
        Some(s) => if !s.as_str().is_empty() {
            it.hands = s.clone();
        },
        None => {},
    }
}

/// What one record looks like after the overlay pass: merged with its
/// supplemental record when one is keyed by its identifier, untouched
/// otherwise.
pub open spec fn overlay_result(
    prev: Item,
    entries: Seq<(String, PartialItemData)>,
    it: Item,
) -> bool {
    match spec_supp_lookup(entries, prev.id) {
        Some(sup) => overlay_post(prev, sup, it),
        None => it == prev,
    }
}

/// Merge the supplemental map onto every record, in order.
pub fn apply_supplements(items: Vec<Item>, supp: &SupplementalData) -> (r: Vec<Item>)
    ensures
        r@.len() == items@.len(),
        forall|i: int|
            0 <= i < items@.len() ==> overlay_result(items@[i], supp@, #[trigger] r@[i]),
{
    let ghost orig = items@;
    let mut rest = items;
    let mut out: Vec<Item> = Vec::new();
    while rest.len() > 0
        invariant
            out@.len() + rest@.len() == orig.len(),
            rest@ =~= orig.skip(out@.len() as int),
            forall|j: int|
                0 <= j < out@.len() ==> overlay_result(orig[j], supp@, #[trigger] out@[j]),
        decreases rest.len(),
    {
        let ghost before = rest@;
        let mut it = rest.remove(0);
        proof {
            assert(before.remove(0) =~= before.drop_first());
            assert(it == orig[out@.len() as int]);
        }
        match supp.lookup(it.id) {
            Some(sup) => {
                apply_supplement(&mut it, sup);
            },
            None => {},
        }
        out.push(it);
        proof {
            assert(rest@ =~= orig.skip(out@.len() as int));
        }
    }
    out
}

/// A supplemental record that supplies a rarity label re-derives the rarity
/// from that label alone, and one that supplies no stats leaves the derived
/// stats exactly as the join produced them.
pub proof fn lemma_rarity_label_rederives_stats_kept(prev: Item, sup: PartialItemData, it: Item)
    requires
        overlay_post(prev, sup, it),
    ensures
        match sup.rarity_type {
            Some(l) => it.rarity == spec_rarity_of_label(l@),
            None => it.rarity == prev.rarity,
        },
        sup.stats is None ==> it.stats@ == prev.stats@,
{
}

/// The overlay never replaces a derived field with an empty or absent
/// supplemental value, and always replaces it with a present, non-empty one.
pub proof fn lemma_overlay_empty_never_wins(prev: Item, sup: PartialItemData, it: Item)
    requires
        overlay_post(prev, sup, it),
    ensures
        sup.name@.len() == 0 ==> it.name == prev.name,
        sup.name@.len() > 0 ==> it.name == sup.name,
        match sup.stats {
            Some(v) => (v@.len() == 0 ==> it.stats@ == prev.stats@) && (v@.len() > 0 ==> it.stats@
                == v@),
            None => it.stats@ == prev.stats@,
        },
        match sup.spells {
            Some(v) => (v@.len() == 0 ==> it.spells@ == prev.spells@) && (v@.len() > 0
                ==> it.spells@ == v@),
            None => it.spells@ == prev.spells@,
        },
        match sup.requires {
            Some(v) => (v@.len() == 0 ==> it.requires@ == prev.requires@) && (v@.len() > 0
                ==> it.requires@ == v@),
            None => it.requires@ == prev.requires@,
        },
        match sup.damage {
            Some(s) => (s@.len() == 0 ==> it.damage == prev.damage) && (s@.len() > 0 ==> it.damage
                == s),
            None => it.damage == prev.damage,
        },
        match sup.added_damage {
            Some(s) => (s@.len() == 0 ==> it.added_damage == prev.added_damage) && (s@.len() > 0
                ==> it.added_damage == s),
            None => it.added_damage == prev.added_damage,
        },
        match sup.armor {
            Some(s) => (s@.len() == 0 ==> it.armor == prev.armor) && (s@.len() > 0 ==> it.armor
                == s),
            None => it.armor == prev.armor,
        },
        match sup.speed {
            Some(s) => (s@.len() == 0 ==> it.speed == prev.speed) && (s@.len() > 0 ==> it.speed
                == s),
            None => it.speed == prev.speed,
        },
        match sup.dps {
            Some(s) => (s@.len() == 0 ==> it.dps == prev.dps) && (s@.len() > 0 ==> it.dps == s),
            None => it.dps == prev.dps,
        },
        match sup.bonding {
            Some(s) => (s@.len() == 0 ==> it.bonding == prev.bonding) && (s@.len() > 0
                ==> it.bonding == s),
            None => it.bonding == prev.bonding,
        },
        match sup.hands {
            Some(s) => (s@.len() == 0 ==> it.hands == prev.hands) && (s@.len() > 0 ==> it.hands
                == s),
            None => it.hands == prev.hands,
        },
{
}

} // verus!
