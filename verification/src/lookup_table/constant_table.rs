use vstd::prelude::*;
use crate::field::Fe;
use crate::instance::ValueItem;

verus! {

/// A row of the constant table: one flattened item of constant
/// `constant_index` of module `module_index`.
#[derive(Clone, Copy, Debug)]
pub struct ConstantTableRow {
    pub module_index: usize,
    pub constant_index: usize,
    pub value_item: ValueItem,
}

impl ConstantTableRow {
    /// `[module_index, constant_index, sub_index, limb 0, limb 1, header]`,
    /// in the order of the table's columns.
    pub fn to_fields(&self) -> (r: Vec<Fe>)
        ensures
            r@.len() == 6,
            r@[0].val() == self.module_index,
            r@[1].val() == self.constant_index,
            r@[2] == self.value_item.sub_index,
            r@[3] == self.value_item.limbs[0],
            r@[4] == self.value_item.limbs[1],
            r@[5] == self.value_item.header,
    {
        vec![
            Fe::from_u128(self.module_index as u128),
            Fe::from_u128(self.constant_index as u128),
            self.value_item.sub_index,
            self.value_item.limbs[0],
            self.value_item.limbs[1],
            self.value_item.header,
        ]
    }
}

} // verus!
