use vstd::prelude::*;
use crate::expr::{Expression, Witness, e_cell, e_const, e_mul, e_sub, eval};
use crate::field::{lemma_modulus_bounds, modulus};
use crate::instructions::{BytecodeLookup, RWLookup, SharedGate, StepChipCells};
use crate::math_gadgets::range_check::lemma_unit_factor;
use crate::executions::read_ref::lemma_equal_in_field;
use crate::opcode::Opcode;

verus! {

/// `Sub`: a binary operation whose result `value_c` is `value_a - value_b`.
#[derive(Debug)]
pub struct Sub;

/// The constraint of `Sub`, under its selector.
pub open spec fn sub_constraint(cells: StepChipCells) -> (&'static str, Expression) {
    ("Sub", e_mul(cells.spec_condition(Opcode::Sub),
        e_sub(e_sub(e_cell(cells.value_a), e_cell(cells.value_b)), e_cell(cells.value_c))))
}

impl Sub {
    /// Adds the constraint of `Sub`, asks for the gates of a binary operation
    /// and looks the instruction up with no operand; it reads the read-write
    /// table only through those gates.
    pub fn configure(
        cells: &StepChipCells,
        constraints: &mut Vec<(&'static str, Expression)>,
        rw_lookups: &mut Vec<(RWLookup, Expression)>,
        bytecode_lookups: &mut Vec<(BytecodeLookup, Expression)>,
        shared_gates: &mut Vec<(SharedGate, Expression)>,
    )
        requires
            cells.has_condition(Opcode::Sub),
        ensures
            final(constraints)@ == old(constraints)@.push(sub_constraint(*cells)),
            final(rw_lookups)@ == old(rw_lookups)@,
            final(shared_gates)@ == old(shared_gates)@.push((SharedGate::BinaryOp, cells.spec_condition(Opcode::Sub))),
            final(bytecode_lookups)@ == old(bytecode_lookups)@.push((BytecodeLookup {
                opcode: Opcode::Sub,
                operand: e_const(0),
            }, cells.spec_condition(Opcode::Sub))),
    {
        let cond = cells.condition(Opcode::Sub);
        let lhs = cells.value_a.expr();
        let rhs = cells.value_b.expr();
        let out = cells.value_c.expr();
        constraints.push(("Sub", Expression::mul(cond.copy(), Expression::sub(Expression::sub(lhs, rhs), out))));
        shared_gates.push((SharedGate::BinaryOp, cond.copy()));
        bytecode_lookups.push((BytecodeLookup { opcode: Opcode::Sub, operand: Expression::constant(0) }, cond));
    }
}

/// What `Sub` proves: on a row where its selector is `1` and its constraint
/// vanishes, `value_c = value_a - value_b` in the field.
pub proof fn lemma_sub_result(cells: StepChipCells, w: Witness, row: int)
    requires
        cells.has_condition(Opcode::Sub),
        eval(cells.spec_condition(Opcode::Sub), w, row) % (modulus() as int) == 1,
        eval(sub_constraint(cells).1, w, row) % (modulus() as int) == 0,
    ensures
        eval(e_cell(cells.value_c), w, row) % (modulus() as int)
            == (eval(e_cell(cells.value_a), w, row) - eval(e_cell(cells.value_b), w, row)) % (modulus() as int),
{
    lemma_modulus_bounds();
    reveal_with_fuel(eval, 4);
    let f = eval(cells.spec_condition(Opcode::Sub), w, row);
    let d = eval(e_cell(cells.value_a), w, row) - eval(e_cell(cells.value_b), w, row);
    let t = d - eval(e_cell(cells.value_c), w, row);
    assert(eval(sub_constraint(cells).1, w, row) == f * t);
    lemma_unit_factor(f, t);
    lemma_equal_in_field(d, eval(e_cell(cells.value_c), w, row));
}

} // verus!
