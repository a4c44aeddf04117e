use vstd::prelude::*;
use crate::expr::{Expression, e_const};
use crate::instructions::{BytecodeLookup, RWLookup, StepChipCells};
use crate::opcode::Opcode;

verus! {

/// `Ret` of the single-row chip: only the instruction is looked up.
#[derive(Debug)]
pub struct Ret;

impl Ret {
    /// Looks the instruction up with no operand; adds no constraint and no
    /// read-write lookup.
    pub fn configure(
        cells: &StepChipCells,
        constraints: &mut Vec<(&'static str, Expression)>,
        rw_lookups: &mut Vec<(RWLookup, Expression)>,
        bytecode_lookups: &mut Vec<(BytecodeLookup, Expression)>,
    )
        requires
            cells.has_condition(Opcode::Ret),
        ensures
            final(constraints)@ == old(constraints)@,
            final(rw_lookups)@ == old(rw_lookups)@,
            final(bytecode_lookups)@ == old(bytecode_lookups)@.push((BytecodeLookup {
                opcode: Opcode::Ret,
                operand: e_const(0),
            }, cells.spec_condition(Opcode::Ret))),
    {
        let cond = cells.condition(Opcode::Ret);
        bytecode_lookups.push((BytecodeLookup { opcode: Opcode::Ret, operand: Expression::constant(0) }, cond));
    }
}

} // verus!
