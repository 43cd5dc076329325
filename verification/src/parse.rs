//! The parsing pipeline driver: offer every table file of every archive, in
//! archive-priority order, to every accumulator in turn. Each accumulator
//! decides acceptance by its table's header check and decode success; a
//! rejected or undecodable file contributes no rows and never disturbs the
//! scan.

pub mod item;
pub mod item_class;
pub mod item_display_info;
pub mod item_sets;
pub mod item_sub_class;
pub mod spell_description_vars;
pub mod spells;

use vstd::prelude::*;
use crate::locator::is_dbc_name;
use crate::locator::spec_is_dbc_name;
use crate::store::Keyed;
use crate::store::upsert_all;
use crate::store::lemma_upsert_all_concat;
use item::Items;
use item::accepted_items;
use item_class::ItemClasses;
use item_class::accepted_item_classes;
use item_display_info::ItemDisplayInfos;
use item_display_info::accepted_item_display_infos;
use item_sets::ItemSets;
use item_sets::accepted_item_sets;
use item_sub_class::ItemSubClasses;
use item_sub_class::accepted_item_sub_classes;
use spell_description_vars::SpellDescriptionVars;
use spell_description_vars::accepted_spell_description_vars;
use spells::Spells;
use spells::accepted_spells;

verus! {

/// One file extracted from an archive: its name inside the archive and its
/// byte image.
pub struct DbcFile {
    pub name: String,
    pub data: Vec<u8>,
}

impl View for DbcFile {
    type V = (Seq<char>, Seq<u8>);

    open spec fn view(&self) -> (Seq<char>, Seq<u8>) {
        (self.name@, self.data@)
    }
}

/// The six-table accumulator bank the pipeline fills.
pub struct Accumulators {
    pub items: Items,
    pub item_display_infos: ItemDisplayInfos,
    pub item_classes: ItemClasses,
    pub item_sub_classes: ItemSubClasses,
    pub item_sets: ItemSets,
    pub spells: Spells,
    pub spell_description_vars: SpellDescriptionVars,
}

impl Accumulators {
    pub fn new() -> (r: Self)
        ensures
            r.items@ =~= Seq::<crate::rows::ItemRowData>::empty(),
            r.item_display_infos@ =~= Seq::<crate::rows::ItemDisplayInfoRowData>::empty(),
            r.item_classes@ =~= Seq::<crate::rows::ItemClassRowData>::empty(),
            r.item_sub_classes@ =~= Seq::<crate::rows::ItemSubClassRowData>::empty(),
            r.item_sets@ =~= Seq::<crate::rows::ItemSetRowData>::empty(),
            r.spells@ =~= Seq::<crate::rows::SpellRowData>::empty(),
            r.spell_description_vars@ =~= Seq::<crate::rows::SpellDescVarsRowData>::empty(),
    {
        Accumulators {
            items: Items::new(),
            item_display_infos: ItemDisplayInfos::new(),
            item_classes: ItemClasses::new(),
            item_sub_classes: ItemSubClasses::new(),
            item_sets: ItemSets::new(),
            spells: Spells::new(),
            spell_description_vars: SpellDescriptionVars::new(),
        }
    }
}

/// The rows one table's decoder draws from a file list: each file whose name
/// ends in the table-file suffix contributes its decoded rows, in file order.
pub open spec fn table_rows_of_files<V>(
    files: Seq<(Seq<char>, Seq<u8>)>,
    dec: spec_fn(Seq<u8>) -> Seq<V>,
) -> Seq<V>
    decreases files.len(),
{
    if files.len() == 0 {
        Seq::empty()
    } else {
        table_rows_of_files(files.drop_last(), dec) + (if spec_is_dbc_name(files.last().0) {
            dec(files.last().1)
        } else {
            Seq::empty()
        })
    }
}

pub open spec fn files_view(files: Seq<DbcFile>) -> Seq<(Seq<char>, Seq<u8>)> {
    files.map_values(|f: DbcFile| f@)
}

/// What one accumulator holds after the pipeline has driven a file list
/// through it: every contributed row ingested in order, last wins.
pub open spec fn pipeline_table<V: Keyed>(
    init: Seq<V>,
    files: Seq<(Seq<char>, Seq<u8>)>,
    dec: spec_fn(Seq<u8>) -> Seq<V>,
) -> Seq<V> {
    upsert_all(init, table_rows_of_files(files, dec))
}

proof fn lemma_pipeline_table_step<V: Keyed>(
    init: Seq<V>,
    files: Seq<(Seq<char>, Seq<u8>)>,
    f: (Seq<char>, Seq<u8>),
    dec: spec_fn(Seq<u8>) -> Seq<V>,
)
    ensures
        spec_is_dbc_name(f.0) ==> pipeline_table(init, files.push(f), dec) == upsert_all(
            pipeline_table(init, files, dec),
            dec(f.1),
        ),
        !spec_is_dbc_name(f.0) ==> pipeline_table(init, files.push(f), dec) == pipeline_table(
            init,
            files,
            dec,
        ),
{
    let p = files.push(f);
    assert(p.drop_last() =~= files);
    assert(p.last() == f);
    if spec_is_dbc_name(f.0) {
        lemma_upsert_all_concat(init, table_rows_of_files(files, dec), dec(f.1));
    } else {
        assert(table_rows_of_files(p, dec) =~= table_rows_of_files(files, dec) + Seq::<
            V,
        >::empty());
        assert(table_rows_of_files(p, dec) =~= table_rows_of_files(files, dec));
    }
}

/// Splitting a file list anywhere splits its contributed rows the same way.
proof fn lemma_table_rows_concat<V>(
    fs1: Seq<(Seq<char>, Seq<u8>)>,
    fs2: Seq<(Seq<char>, Seq<u8>)>,
    dec: spec_fn(Seq<u8>) -> Seq<V>,
)
    ensures
        table_rows_of_files(fs1 + fs2, dec) == table_rows_of_files(fs1, dec) + table_rows_of_files(
            fs2,
            dec,
        ),
    decreases fs2.len(),
{
    if fs2.len() == 0 {
        assert(fs1 + fs2 =~= fs1);
        assert(table_rows_of_files(fs1, dec) + table_rows_of_files(fs2, dec)
            =~= table_rows_of_files(fs1, dec));
    } else {
        assert((fs1 + fs2).drop_last() =~= fs1 + fs2.drop_last());
        assert((fs1 + fs2).last() == fs2.last());
        lemma_table_rows_concat(fs1, fs2.drop_last(), dec);
        let tail: Seq<V> = if spec_is_dbc_name(fs2.last().0) {
            dec(fs2.last().1)
        } else {
            Seq::empty()
        };
        assert(table_rows_of_files(fs1, dec) + (table_rows_of_files(fs2.drop_last(), dec) + tail)
            =~= (table_rows_of_files(fs1, dec) + table_rows_of_files(fs2.drop_last(), dec)) + tail);
    }
}

/// Archive priority at the pipeline level: of two file lists driven through
/// in order, a key decoded from the later list ends bound to its last row
/// there, whatever the earlier list held.
pub proof fn lemma_pipeline_priority<V: Keyed>(
    init: Seq<V>,
    fs1: Seq<(Seq<char>, Seq<u8>)>,
    fs2: Seq<(Seq<char>, Seq<u8>)>,
    dec: spec_fn(Seq<u8>) -> Seq<V>,
    k: (int, int),
)
    ensures
        ({
            let rows2 = table_rows_of_files(fs2, dec);
            crate::store::last_key_index(rows2, k) != -1 ==> crate::store::lookup(
                pipeline_table(init, fs1 + fs2, dec),
                k,
            ) == Some(rows2[crate::store::last_key_index(rows2, k)])
        }),
{
    lemma_table_rows_concat(fs1, fs2, dec);
    crate::store::lemma_later_batch_wins(
        init,
        table_rows_of_files(fs1, dec),
        table_rows_of_files(fs2, dec),
        k,
    );
}

/// Drive every file through every accumulator, in order: the pipeline's
/// ordering contract, on which last-wins correctness rests. A file that
/// fails a table's header or string-region check contributes no rows to
/// that table and disturbs nothing else: a fault while one accumulator
/// takes one file is confined to that pair.
pub fn parse_dbcs(accs: &mut Accumulators, files: &Vec<DbcFile>)
    ensures
        final(accs).items@ == pipeline_table(
            old(accs).items@,
            files_view(files@),
            |d: Seq<u8>| accepted_items(d),
        ),
        final(accs).item_display_infos@ == pipeline_table(
            old(accs).item_display_infos@,
            files_view(files@),
            |d: Seq<u8>| accepted_item_display_infos(d),
        ),
        final(accs).item_classes@ == pipeline_table(
            old(accs).item_classes@,
            files_view(files@),
            |d: Seq<u8>| accepted_item_classes(d),
        ),
        final(accs).item_sub_classes@ == pipeline_table(
            old(accs).item_sub_classes@,
            files_view(files@),
            |d: Seq<u8>| accepted_item_sub_classes(d),
        ),
        final(accs).item_sets@ == pipeline_table(
            old(accs).item_sets@,
            files_view(files@),
            |d: Seq<u8>| accepted_item_sets(d),
        ),
        final(accs).spells@ == pipeline_table(
            old(accs).spells@,
            files_view(files@),
            |d: Seq<u8>| accepted_spells(d),
        ),
        final(accs).spell_description_vars@ == pipeline_table(
            old(accs).spell_description_vars@,
            files_view(files@),
            |d: Seq<u8>| accepted_spell_description_vars(d),
        ),
{
    let n = files.len();
    let mut i: usize = 0;
    while i < n
        invariant
            0 <= i <= n,
            n == files@.len(),
            accs.items@ == pipeline_table(
                old(accs).items@,
                files_view(files@.take(i as int)),
                |d: Seq<u8>| accepted_items(d),
            ),
            accs.item_display_infos@ == pipeline_table(
                old(accs).item_display_infos@,
                files_view(files@.take(i as int)),
                |d: Seq<u8>| accepted_item_display_infos(d),
            ),
            accs.item_classes@ == pipeline_table(
                old(accs).item_classes@,
                files_view(files@.take(i as int)),
                |d: Seq<u8>| accepted_item_classes(d),
            ),
            accs.item_sub_classes@ == pipeline_table(
                old(accs).item_sub_classes@,
                files_view(files@.take(i as int)),
                |d: Seq<u8>| accepted_item_sub_classes(d),
            ),
            accs.item_sets@ == pipeline_table(
                old(accs).item_sets@,
                files_view(files@.take(i as int)),
                |d: Seq<u8>| accepted_item_sets(d),
            ),
            accs.spells@ == pipeline_table(
                old(accs).spells@,
                files_view(files@.take(i as int)),
                |d: Seq<u8>| accepted_spells(d),
            ),
            accs.spell_description_vars@ == pipeline_table(
                old(accs).spell_description_vars@,
                files_view(files@.take(i as int)),
                |d: Seq<u8>| accepted_spell_description_vars(d),
            ),
        decreases n - i,
    {
        let f = &files[i];
        let ghost fv = files@[i as int]@;
        let ghost prev = files_view(files@.take(i as int));
        proof {
            assert(files@.take(i + 1).drop_last() =~= files@.take(i as int));
            assert(files_view(files@.take(i + 1)) =~= prev.push(fv));
            lemma_pipeline_table_step(old(accs).items@, prev, fv, |d: Seq<u8>| accepted_items(d));
            lemma_pipeline_table_step(
                old(accs).item_display_infos@,
                prev,
                fv,
                |d: Seq<u8>| accepted_item_display_infos(d),
            );
            lemma_pipeline_table_step(
                old(accs).item_classes@,
                prev,
                fv,
                |d: Seq<u8>| accepted_item_classes(d),
            );
            lemma_pipeline_table_step(
                old(accs).item_sub_classes@,
                prev,
                fv,
                |d: Seq<u8>| accepted_item_sub_classes(d),
            );
            lemma_pipeline_table_step(
                old(accs).item_sets@,
                prev,
                fv,
                |d: Seq<u8>| accepted_item_sets(d),
            );
            lemma_pipeline_table_step(old(accs).spells@, prev, fv, |d: Seq<u8>| accepted_spells(d));
            lemma_pipeline_table_step(
                old(accs).spell_description_vars@,
                prev,
                fv,
                |d: Seq<u8>| accepted_spell_description_vars(d),
            );
        }
        if is_dbc_name(f.name.as_str()) {
            accs.items.parse(f.data.as_slice());
            accs.item_display_infos.parse(f.data.as_slice());
            accs.item_classes.parse(f.data.as_slice());
            accs.item_sub_classes.parse(f.data.as_slice());
            accs.item_sets.parse(f.data.as_slice());
            accs.spells.parse(f.data.as_slice());
            accs.spell_description_vars.parse(f.data.as_slice());
        }
        i = i + 1;
    }
    proof {
        assert(files@.take(n as int) =~= files@);
    }
}

} // verus!
