use vstd::prelude::*;
use crate::expr::{Expression, e_cell};
use crate::field::Fe;
use crate::instructions::{BytecodeLookup, RWLookup, SharedGate, StepChipCells, SynthesisError};
use crate::opcode::Opcode;

verus! {

/// `LdU8`: a load whose pushed value `value_a` is the instruction's operand.
#[derive(Debug)]
pub struct LdU8;

impl LdU8 {
    /// Asks for the gates of a load and looks the instruction up with
    /// `value_a` as its operand; it adds no constraint and reads the
    /// read-write table only through the load's gates.
    pub fn configure(
        cells: &StepChipCells,
        constraints: &mut Vec<(&'static str, Expression)>,
        rw_lookups: &mut Vec<(RWLookup, Expression)>,
        bytecode_lookups: &mut Vec<(BytecodeLookup, Expression)>,
        shared_gates: &mut Vec<(SharedGate, Expression)>,
    )
        requires
            cells.has_condition(Opcode::LdU8),
        ensures
            final(constraints)@ == old(constraints)@,
            final(rw_lookups)@ == old(rw_lookups)@,
            final(shared_gates)@ == old(shared_gates)@.push((SharedGate::LoadOp, cells.spec_condition(Opcode::LdU8))),
            final(bytecode_lookups)@ == old(bytecode_lookups)@.push((BytecodeLookup {
                opcode: Opcode::LdU8,
                operand: e_cell(cells.value_a),
            }, cells.spec_condition(Opcode::LdU8))),
    {
        let cond = cells.condition(Opcode::LdU8);
        shared_gates.push((SharedGate::LoadOp, cond.copy()));
        bytecode_lookups.push((BytecodeLookup { opcode: Opcode::LdU8, operand: cells.value_a.expr() }, cond));
    }

    /// The witness: `value_a` is the value of the read-write operation at the
    /// step's global counter, the pushed value; without it, no witness.
    pub fn assign(rw_values: &Vec<Fe>, gc: usize) -> (r: Result<Fe, SynthesisError>)
        ensures
            r is Ok <==> gc < rw_values@.len(),
            r matches Ok(v) ==> v == rw_values@[gc as int],
    {
        if gc < rw_values.len() {
            Ok(rw_values[gc])
        } else {
            Err(SynthesisError::Synthesis)
        }
    }
}

} // verus!
