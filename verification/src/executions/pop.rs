use vstd::prelude::*;
use crate::builder::{Constraint, ConstraintBuilder, RowScope, Requirement, Transition, at, e_in_set, req,
    transition_records};
use crate::executions::common::{e_opcodes, minus_one, opcode_exprs};
use crate::expr::{Expression, e_cell, e_const, e_mul, e_not, e_sub};
use crate::opcode::Opcode;
use crate::step::{StateField, StepState};

verus! {

/// `Pop`: drops the top of the stack; a complex value takes one row per
/// flattened item.
#[derive(Debug, Default)]
pub struct Pop;

pub open spec fn pop_constraints(s: StepState) -> Seq<Constraint> {
    seq![
        at(RowScope::First, "opcode in OPCODES", e_in_set(e_cell(s.opcode), e_opcodes(seq![Opcode::Pop]))),
        at(RowScope::First, "step_counter(0) == flen", e_mul(e_cell(s.stack_pop_value_header),
            e_sub(e_cell(s.step_counter), e_cell(s.stack_pop_value.cells[0])))),
        at(RowScope::First, "step_counter(0) == 1", e_mul(e_not(e_cell(s.stack_pop_value_header)),
            e_sub(e_cell(s.step_counter), e_const(1)))),
        at(RowScope::All, "stack_pop_index(0) == sp(0)", e_sub(e_cell(s.stack_pop_index), e_cell(s.sp))),
        at(RowScope::First, "stack_pop_sub_index(0) == 0", e_cell(s.stack_pop_sub_index)),
    ]
}

pub open spec fn pop_exit() -> Seq<(StateField, Transition)> {
    seq![(StateField::Pc, Transition::Delta(e_const(1))), (StateField::Sp, Transition::Delta(minus_one()))]
}

impl Pop {
    pub fn configure(cb: &mut ConstraintBuilder) -> (r: Pop)
        requires
            old(cb).wf(),
            old(cb).scope == RowScope::All,
            old(cb).condition is None,
        ensures
            final(cb).wf(),
            final(cb).scope == RowScope::All,
            final(cb).condition is None,
            final(cb).curr == old(cb).curr,
            final(cb).next_column == old(cb).next_column,
            final(cb).lookups == old(cb).lookups,
            final(cb).constraints@ == old(cb).constraints@ + pop_constraints(old(cb).curr),
            final(cb).requirements@ == old(cb).requirements@ + seq![
                req(RowScope::All, None, Requirement::NoStackPush),
                req(RowScope::All, None, Requirement::NoLocalOp),
            ] + transition_records(RowScope::Last, None, pop_exit()),
    {
        let s = cb.curr;
        let prev = cb.scope_begin(RowScope::First);
        let ops = [Opcode::Pop];
        cb.require_in_set("opcode in OPCODES", s.opcode.expr(), opcode_exprs(&ops));
        let c = cb.condition_begin(s.stack_pop_value_header.expr());
        cb.require_equal("step_counter(0) == flen", s.step_counter.expr(), s.stack_pop_value.as_header().flen());
        cb.condition_end(c);
        let c = cb.condition_begin(Expression::not(s.stack_pop_value_header.expr()));
        cb.require_equal("step_counter(0) == 1", s.step_counter.expr(), Expression::constant(1));
        cb.condition_end(c);
        cb.scope_end(prev);
        cb.require_equal("stack_pop_index(0) == sp(0)", s.stack_pop_index.expr(), s.sp.expr());
        let prev = cb.scope_begin(RowScope::First);
        cb.require_zero("stack_pop_sub_index(0) == 0", s.stack_pop_sub_index.expr());
        cb.scope_end(prev);
        cb.require_no_stack_push();
        cb.require_no_local_op();
        let prev = cb.scope_begin(RowScope::Last);
        let exit = vec![
            (StateField::Pc, Transition::Delta(Expression::constant(1))),
            (StateField::Sp, Transition::Delta(Expression::neg(Expression::constant(1)))),
        ];
        proof {
            assert(exit@ =~= pop_exit());
        }
        cb.require_state_transitions(exit);
        cb.scope_end(prev);
        proof {
            assert(ops@ =~= seq![Opcode::Pop]);
            assert(cb.constraints@ =~= old(cb).constraints@ + pop_constraints(s));
            assert(cb.requirements@ =~= old(cb).requirements@ + seq![
                req(RowScope::All, None, Requirement::NoStackPush),
                req(RowScope::All, None, Requirement::NoLocalOp),
            ] + transition_records(RowScope::Last, None, pop_exit()));
        }
        Pop
    }
}

} // verus!
