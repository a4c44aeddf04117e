use vstd::prelude::*;
use crate::builder::{Constraint, ConstraintBuilder, RowScope, Requirement, at, req, transition_records};
use crate::executions::common::{push_exit, push_exit_vec};
use crate::expr::{Expression, Witness, e_add, e_cell, e_const, e_sub, eval};
use crate::field::modulus;
use crate::step::StepState;

verus! {

/// Loads an integer constant (`LdU8` .. `LdU256`): the bytecode operand is held
/// in `aux0` (low half) and `aux1` (high half).
#[derive(Debug)]
pub struct LdSimple;

pub open spec fn ld_simple_constraints(s: StepState) -> Seq<Constraint> {
    seq![
        at(RowScope::All, "step_counter(0) == 1", e_sub(e_cell(s.step_counter), e_const(1))),
        at(RowScope::All, "stack_push_index(0) == sp(0) + 1", e_sub(e_cell(s.stack_push_index), e_add(e_cell(s.sp), e_const(1)))),
        at(RowScope::All, "stack_push_sub_index(0) == 0", e_cell(s.stack_push_sub_index)),
        at(RowScope::All, "stack_push_value(0).lo == aux0(0)", e_sub(e_cell(s.stack_push_value.cells[0]), e_cell(s.aux0))),
        at(RowScope::All, "stack_push_value(0).hi == aux1(0)", e_sub(e_cell(s.stack_push_value.cells[1]), e_cell(s.aux1))),
        at(RowScope::All, "stack_push_value_header(0) == false", e_cell(s.stack_push_value_header)),
        at(RowScope::All, "stack_push_version(0) == clk(0)", e_sub(e_cell(s.stack_push_version), e_cell(s.clk))),
    ]
}

impl LdSimple {
    pub fn configure(cb: &mut ConstraintBuilder) -> (r: LdSimple)
        requires
            old(cb).wf(),
            old(cb).scope == RowScope::All,
            old(cb).condition is None,
        ensures
            final(cb).wf(),
            final(cb).scope == RowScope::All,
            final(cb).condition is None,
            final(cb).curr == old(cb).curr,
            final(cb).next_column == old(cb).next_column,
            final(cb).lookups == old(cb).lookups,
            final(cb).constraints@ == old(cb).constraints@ + ld_simple_constraints(old(cb).curr),
            final(cb).requirements@ == old(cb).requirements@ + seq![
                req(RowScope::All, None, Requirement::NoStackPop),
                req(RowScope::All, None, Requirement::NoLocalOp),
            ] + transition_records(RowScope::All, None, push_exit()),
    {
        let s = cb.curr;
        cb.require_equal("step_counter(0) == 1", s.step_counter.expr(), Expression::constant(1));
        cb.require_equal(
            "stack_push_index(0) == sp(0) + 1",
            s.stack_push_index.expr(),
            Expression::add(s.sp.expr(), Expression::constant(1)),
        );
        cb.require_zero("stack_push_sub_index(0) == 0", s.stack_push_sub_index.expr());
        cb.require_equal("stack_push_value(0).lo == aux0(0)", s.stack_push_value.as_integer().lo(), s.aux0.expr());
        cb.require_equal("stack_push_value(0).hi == aux1(0)", s.stack_push_value.as_integer().hi(), s.aux1.expr());
        cb.require_zero("stack_push_value_header(0) == false", s.stack_push_value_header.expr());
        cb.require_equal("stack_push_version(0) == clk(0)", s.stack_push_version.expr(), s.clk.expr());
        cb.require_no_stack_pop();
        cb.require_no_local_op();
        cb.require_state_transitions(push_exit_vec());
        proof {
            assert(cb.constraints@ =~= old(cb).constraints@ + ld_simple_constraints(s));
            assert(cb.requirements@ =~= old(cb).requirements@ + seq![
                req(RowScope::All, None, Requirement::NoStackPop),
                req(RowScope::All, None, Requirement::NoLocalOp),
            ] + transition_records(RowScope::All, None, push_exit()));
        }
        LdSimple
    }
}

/// On a row where the constraints of `LdSimple` hold, the pushed value is the
/// operand: its limbs (taken in the field) equal `aux0` and `aux1`.
pub proof fn lemma_ld_simple_pushes_operand(s: StepState, w: Witness, row: int)
    requires
        forall|i: int| 0 <= i < ld_simple_constraints(s).len() ==>
            #[trigger] eval(ld_simple_constraints(s)[i].poly, w, row) % (modulus() as int) == 0,
        0 <= eval(e_cell(s.stack_push_value.cells[0]), w, row) < modulus(),
        0 <= eval(e_cell(s.stack_push_value.cells[1]), w, row) < modulus(),
        0 <= eval(e_cell(s.aux0), w, row) < modulus(),
        0 <= eval(e_cell(s.aux1), w, row) < modulus(),
    ensures
        eval(e_cell(s.stack_push_value.cells[0]), w, row) == eval(e_cell(s.aux0), w, row),
        eval(e_cell(s.stack_push_value.cells[1]), w, row) == eval(e_cell(s.aux1), w, row),
{
    let cs = ld_simple_constraints(s);
    assert(eval(cs[3].poly, w, row) % (modulus() as int) == 0);
    assert(eval(cs[4].poly, w, row) % (modulus() as int) == 0);
    reveal_with_fuel(eval, 3);
    let p = modulus() as int;
    crate::math_gadgets::add::lemma_small_int_mod_zero(
        eval(e_cell(s.stack_push_value.cells[0]), w, row) - eval(e_cell(s.aux0), w, row), p);
    crate::math_gadgets::add::lemma_small_int_mod_zero(
        eval(e_cell(s.stack_push_value.cells[1]), w, row) - eval(e_cell(s.aux1), w, row), p);
}

} // verus!
