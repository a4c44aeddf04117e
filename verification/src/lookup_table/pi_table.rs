use vstd::prelude::*;
use crate::field::Fe;

verus! {

/// The table that marks which arguments of the entry function are public
/// inputs.
#[derive(Clone, Copy, Debug)]
pub struct PublicInputsLookupTable;

impl PublicInputsLookupTable {
    /// The rows `[arg_index, is_pi]` for every argument of an entry function
    /// of `num_arg` arguments, `is_pi` being `1` for the public inputs.
    pub fn build(&self, num_arg: usize, public_inputs: &Vec<usize>) -> (r: Vec<Vec<Fe>>)
        ensures
            r@.len() == num_arg,
            forall|i: int| 0 <= i < num_arg ==> {
                let row = #[trigger] r@[i]@;
                &&& row.len() == 2
                &&& row[0].val() == i
                &&& row[1].val() == (if public_inputs@.contains(i as usize) { 1nat } else { 0nat })
            },
    {
        let mut rows: Vec<Vec<Fe>> = Vec::new();
        let mut i: usize = 0;
        while i < num_arg
            invariant
                i <= num_arg,
                rows@.len() == i,
                forall|k: int| 0 <= k < i ==> {
                    let row = #[trigger] rows@[k]@;
                    &&& row.len() == 2
                    &&& row[0].val() == k
                    &&& row[1].val() == (if public_inputs@.contains(k as usize) { 1nat } else { 0nat })
                },
            decreases num_arg - i,
        {
            let mut is_public_input = false;
            let mut j: usize = 0;
            while j < public_inputs.len()
                invariant
                    j <= public_inputs@.len(),
                    is_public_input == (exists|k: int| 0 <= k < j && public_inputs@[k] == i),
                decreases public_inputs.len() - j,
            {
                if public_inputs[j] == i {
                    is_public_input = true;
                }
                j = j + 1;
            }
            proof {
                if is_public_input {
                    let k = choose|k: int| 0 <= k < public_inputs@.len() && public_inputs@[k] == i;
                    assert(public_inputs@.contains(i));
                }
            }
            rows.push(vec![Fe::from_u64(i as u64), Fe::from_bool(is_public_input)]);
            i = i + 1;
        }
        rows
    }
}

} // verus!
