use vstd::prelude::*;
use crate::builder::ConstraintBuilder;

verus! {

/// The stage of the native `poseidon_hash::hash(input1: u256, input2: u256) -> u256`:
/// it holds no cells and adds no constraint of its own.
#[derive(Debug)]
pub struct NativePoseidonHash;

impl NativePoseidonHash {
    pub fn configure(cb: &mut ConstraintBuilder) -> (r: NativePoseidonHash)
        ensures
            *final(cb) == *old(cb),
    {
        NativePoseidonHash
    }
}

} // verus!
