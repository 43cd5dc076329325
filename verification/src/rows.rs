//! Decoded rows of the six relational tables, reduced to the fields the
//! pipeline reads, as plain values with their table's key.

use vstd::prelude::*;
use crate::store::Keyed;

verus! {

/// One row of the item table.
#[derive(Clone, Debug)]
pub struct ItemRowData {
    pub id: i32,
    pub class_id: i32,
    pub subclass_id: i32,
    pub display_info_id: i32,
    pub inventory_type: i32,
}

impl Keyed for ItemRowData {
    open spec fn skey(&self) -> (int, int) {
        (self.id as int, 0)
    }

    fn row_key(&self) -> (k: (i32, i32)) {
        (self.id, 0)
    }
}

/// One row of the item-class table.
#[derive(Clone, Debug)]
pub struct ItemClassRowData {
    pub class_id: i32,
    pub name: String,
}

impl Keyed for ItemClassRowData {
    open spec fn skey(&self) -> (int, int) {
        (self.class_id as int, 0)
    }

    fn row_key(&self) -> (k: (i32, i32)) {
        (self.class_id, 0)
    }
}

/// One row of the display-info table; `icon` is the first icon filename.
#[derive(Clone, Debug)]
pub struct ItemDisplayInfoRowData {
    pub id: i32,
    pub icon: String,
}

impl Keyed for ItemDisplayInfoRowData {
    open spec fn skey(&self) -> (int, int) {
        (self.id as int, 0)
    }

    fn row_key(&self) -> (k: (i32, i32)) {
        (self.id, 0)
    }
}

/// One row of the item-subclass table, keyed on (class, subclass).
#[derive(Clone, Debug)]
pub struct ItemSubClassRowData {
    pub class_id: i32,
    pub sub_class_id: i32,
    pub display_name: String,
}

impl Keyed for ItemSubClassRowData {
    open spec fn skey(&self) -> (int, int) {
        (self.class_id as int, self.sub_class_id as int)
    }

    fn row_key(&self) -> (k: (i32, i32)) {
        (self.class_id, self.sub_class_id)
    }
}

/// One row of the item-set table: member item identifiers and the parallel
/// (granted spell, piece threshold) arrays, zipped positionally at join time.
#[derive(Clone, Debug)]
pub struct ItemSetRowData {
    pub id: i32,
    pub name: String,
    pub item_ids: Vec<i32>,
    pub spell_ids: Vec<i32>,
    pub thresholds: Vec<i32>,
}

impl Keyed for ItemSetRowData {
    open spec fn skey(&self) -> (int, int) {
        (self.id as int, 0)
    }

    fn row_key(&self) -> (k: (i32, i32)) {
        (self.id, 0)
    }
}

/// One row of the spell table.
#[derive(Clone, Debug)]
pub struct SpellRowData {
    pub id: i32,
    pub description_variables_id: i32,
    pub description: String,
}

impl Keyed for SpellRowData {
    open spec fn skey(&self) -> (int, int) {
        (self.id as int, 0)
    }

    fn row_key(&self) -> (k: (i32, i32)) {
        (self.id, 0)
    }
}

/// One row of the spell-description-variable table.
#[derive(Clone, Debug)]
pub struct SpellDescVarsRowData {
    pub id: i32,
    pub variables: String,
}

impl Keyed for SpellDescVarsRowData {
    open spec fn skey(&self) -> (int, int) {
        (self.id as int, 0)
    }

    fn row_key(&self) -> (k: (i32, i32)) {
        (self.id, 0)
    }
}

} // verus!
