use vstd::prelude::*;
use crate::expr::{Expression, Witness, e_add, e_cell, e_const, e_mul, e_sub, eval};
use crate::field::{Fe, lemma_modulus_bounds, modulus};
use crate::instructions::{BytecodeLookup, RWLookup, StepChipCells, SynthesisError};
use crate::math_gadgets::range_check::lemma_unit_factor;
use crate::executions::read_ref::lemma_equal_in_field;
use crate::opcode::Opcode;

verus! {

/// `BrTrue`: pops the condition into `value_a` and jumps to the target held
/// in `auxiliary` when it is true, else goes on to the next instruction.
#[derive(Debug)]
pub struct BrTrue;

/// The four constraints of `BrTrue`, each under its selector `cond`.
pub open spec fn br_true_constraints(cells: StepChipCells) -> Seq<(&'static str, Expression)> {
    let cond = cells.spec_condition(Opcode::BrTrue);
    let aux = e_cell(cells.auxiliary);
    let value_a = e_cell(cells.value_a);
    let pc_expr = e_sub(e_add(e_mul(aux, value_a), e_mul(e_add(e_cell(cells.pc), e_const(1)), e_sub(e_const(1), value_a))),
        e_cell(cells.next_pc));
    let stack_size_expr = e_sub(e_sub(e_cell(cells.stack_size), e_cell(cells.next_stack_size)), e_const(1));
    let call_index_expr = e_sub(e_cell(cells.call_index), e_cell(cells.next_call_index));
    let gc_expr = e_add(e_sub(e_cell(cells.gc), e_cell(cells.next_gc)), e_const(1));
    seq![
        ("BrTrue pc", e_mul(cond, pc_expr)),
        ("BrTrue stack size", e_mul(cond, stack_size_expr)),
        ("BrTrue call index", e_mul(cond, call_index_expr)),
        ("BrTrue gc", e_mul(cond, gc_expr)),
    ]
}

impl BrTrue {
    /// Adds the constraints of `BrTrue`, the pop of its condition and the
    /// lookup of the instruction with its target as operand.
    pub fn configure(
        cells: &StepChipCells,
        constraints: &mut Vec<(&'static str, Expression)>,
        rw_lookups: &mut Vec<(RWLookup, Expression)>,
        bytecode_lookups: &mut Vec<(BytecodeLookup, Expression)>,
    )
        requires
            cells.has_condition(Opcode::BrTrue),
        ensures
            final(constraints)@ == old(constraints)@ + br_true_constraints(*cells),
            final(rw_lookups)@ == old(rw_lookups)@.push((RWLookup::StackPop {
                gc: e_cell(cells.gc),
                stack_size: e_cell(cells.stack_size),
                value: e_cell(cells.value_a),
            }, cells.spec_condition(Opcode::BrTrue))),
            final(bytecode_lookups)@ == old(bytecode_lookups)@.push((BytecodeLookup {
                opcode: Opcode::BrTrue,
                operand: e_cell(cells.auxiliary),
            }, cells.spec_condition(Opcode::BrTrue))),
    {
        let cond = cells.condition(Opcode::BrTrue);
        let aux = cells.auxiliary.expr();
        let value_a = cells.value_a.expr();
        // auxiliary * value_a + (pc + 1) * (1 - value_a) - next_pc = 0
        let pc_expr = Expression::sub(
            Expression::add(
                Expression::mul(aux.copy(), value_a.copy()),
                Expression::mul(
                    Expression::add(cells.pc.expr(), Expression::constant(1)),
                    Expression::sub(Expression::constant(1), value_a),
                ),
            ),
            cells.next_pc.expr(),
        );
        let stack_size_expr = Expression::sub(
            Expression::sub(cells.stack_size.expr(), cells.next_stack_size.expr()),
            Expression::constant(1),
        );
        let call_index_expr = Expression::sub(cells.call_index.expr(), cells.next_call_index.expr());
        let gc_expr = Expression::add(Expression::sub(cells.gc.expr(), cells.next_gc.expr()), Expression::constant(1));
        constraints.push(("BrTrue pc", Expression::mul(cond.copy(), pc_expr)));
        constraints.push(("BrTrue stack size", Expression::mul(cond.copy(), stack_size_expr)));
        constraints.push(("BrTrue call index", Expression::mul(cond.copy(), call_index_expr)));
        constraints.push(("BrTrue gc", Expression::mul(cond.copy(), gc_expr)));
        rw_lookups.push((
            RWLookup::StackPop { gc: cells.gc.expr(), stack_size: cells.stack_size.expr(), value: cells.value_a.expr() },
            cond.copy(),
        ));
        bytecode_lookups.push((BytecodeLookup { opcode: Opcode::BrTrue, operand: cells.auxiliary.expr() }, cond));
        proof {
            assert(constraints@ =~= old(constraints)@ + br_true_constraints(*cells));
        }
    }

    /// The witness: the branch target in `auxiliary` and the popped
    /// condition, the value of the read-write operation at the step's global
    /// counter. Without a target or that operation, no witness.
    pub fn assign(auxiliary: Option<Fe>, rw_values: &Vec<Fe>, gc: usize) -> (r: Result<(Fe, Fe), SynthesisError>)
        ensures
            r is Ok <==> (auxiliary is Some && gc < rw_values@.len()),
            r matches Ok(w) ==> w.0 == auxiliary->0 && w.1 == rw_values@[gc as int],
    {
        match auxiliary {
            None => Err(SynthesisError::Synthesis),
            Some(aux) => {
                if gc < rw_values.len() {
                    Ok((aux, rw_values[gc]))
                } else {
                    Err(SynthesisError::Synthesis)
                }
            },
        }
    }
}

/// What `BrTrue` proves: on a row where its selector is `1`, its four
/// constraints vanish and the popped condition is a bit (as the stack's
/// boolean values are), the next pc is the target when the condition is
/// true and `pc + 1` otherwise, the stack shrinks by one, the call index
/// stays and the global counter moves on by one, all in the field.
pub proof fn lemma_br_true_transition(cells: StepChipCells, w: Witness, row: int)
    requires
        cells.has_condition(Opcode::BrTrue),
        eval(cells.spec_condition(Opcode::BrTrue), w, row) % (modulus() as int) == 1,
        forall|i: int| 0 <= i < 4 ==> #[trigger] eval(br_true_constraints(cells)[i].1, w, row) % (modulus() as int) == 0,
        eval(e_cell(cells.value_a), w, row) == 0 || eval(e_cell(cells.value_a), w, row) == 1,
    ensures
        ({
            let p = modulus() as int;
            let v = |c: crate::expr::Cell| eval(e_cell(c), w, row) % p;
            &&& eval(e_cell(cells.value_a), w, row) == 1 ==> v(cells.next_pc) == v(cells.auxiliary)
            &&& eval(e_cell(cells.value_a), w, row) == 0 ==> v(cells.next_pc) == (eval(e_cell(cells.pc), w, row) + 1) % p
            &&& v(cells.next_stack_size) == (eval(e_cell(cells.stack_size), w, row) - 1) % p
            &&& v(cells.next_call_index) == v(cells.call_index)
            &&& v(cells.next_gc) == (eval(e_cell(cells.gc), w, row) + 1) % p
        }),
{
    lemma_modulus_bounds();
    reveal_with_fuel(eval, 5);
    let cs = br_true_constraints(cells);
    let f = eval(cells.spec_condition(Opcode::BrTrue), w, row);
    let a = eval(e_cell(cells.value_a), w, row);
    let aux = eval(e_cell(cells.auxiliary), w, row);
    let pc = eval(e_cell(cells.pc), w, row);
    let npc = eval(e_cell(cells.next_pc), w, row);
    let t0 = aux * a + (pc + 1) * (1 - a) - npc;
    let va = e_cell(cells.value_a);
    let prod = e_mul(e_add(e_cell(cells.pc), e_const(1)), e_sub(e_const(1), va));
    assert(eval(prod, w, row) == (pc + 1) * (1 - a));
    assert(eval(e_mul(e_cell(cells.auxiliary), va), w, row) == aux * a);
    assert(eval(cs[0].1, w, row) == f * t0);
    assert(eval(cs[0].1, w, row) % (modulus() as int) == 0);
    lemma_unit_factor(f, t0);
    if a == 1 {
        assert(t0 == aux - npc) by (nonlinear_arith) requires t0 == aux * a + (pc + 1) * (1 - a) - npc, a == 1;
        lemma_equal_in_field(aux, npc);
    } else {
        assert(t0 == pc + 1 - npc) by (nonlinear_arith) requires t0 == aux * a + (pc + 1) * (1 - a) - npc, a == 0;
        lemma_equal_in_field(pc + 1, npc);
    }
    let t1 = eval(e_cell(cells.stack_size), w, row) - eval(e_cell(cells.next_stack_size), w, row) - 1;
    assert(eval(cs[1].1, w, row) == f * t1);
    assert(eval(cs[1].1, w, row) % (modulus() as int) == 0);
    lemma_unit_factor(f, t1);
    lemma_equal_in_field(eval(e_cell(cells.stack_size), w, row) - 1, eval(e_cell(cells.next_stack_size), w, row));
    let t2 = eval(e_cell(cells.call_index), w, row) - eval(e_cell(cells.next_call_index), w, row);
    assert(eval(cs[2].1, w, row) == f * t2);
    assert(eval(cs[2].1, w, row) % (modulus() as int) == 0);
    lemma_unit_factor(f, t2);
    lemma_equal_in_field(eval(e_cell(cells.call_index), w, row), eval(e_cell(cells.next_call_index), w, row));
    let t3 = eval(e_cell(cells.gc), w, row) - eval(e_cell(cells.next_gc), w, row) + 1;
    assert(eval(cs[3].1, w, row) == f * t3);
    assert(eval(cs[3].1, w, row) % (modulus() as int) == 0);
    lemma_unit_factor(f, t3);
    lemma_equal_in_field(eval(e_cell(cells.gc), w, row) + 1, eval(e_cell(cells.next_gc), w, row));
}

} // verus!
