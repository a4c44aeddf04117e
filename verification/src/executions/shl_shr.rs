use vstd::prelude::*;
use crate::builder::{Constraint, ConstraintBuilder, RowScope, Requirement, Transition, at, e_in_set, req};
use crate::executions::common::{e_opcodes, opcode_exprs};
use crate::expr::{Expression, e_cell, e_const, e_sub};
use crate::opcode::Opcode;
use crate::step::{ExecutionState, StateField, StepState};

verus! {

/// The first stage of `Shl` and `Shr`: pops the shift amount and the value and
/// pushes the result, which the second stage ties to them.
#[derive(Debug)]
pub struct ShiftStage1;

pub open spec fn shift_opcodes() -> Seq<Opcode> {
    seq![Opcode::Shl, Opcode::Shr]
}

pub open spec fn shift_stage1_constraints(s: StepState) -> Seq<Constraint> {
    seq![
        at(RowScope::First, "opcode in OPCODES", e_in_set(e_cell(s.opcode), e_opcodes(shift_opcodes()))),
        at(RowScope::First, "step_counter(0) == 2", e_sub(e_cell(s.step_counter), e_const(2))),
        at(RowScope::First, "stack_pop_index(0) == sp(0)", e_sub(e_cell(s.stack_pop_index), e_cell(s.sp))),
        at(RowScope::All, "stack_pop_sub_index(0) == 0", e_cell(s.stack_pop_sub_index)),
        at(RowScope::All, "stack_pop_value_header(0) == false", e_cell(s.stack_pop_value_header)),
        at(RowScope::Last, "stack_pop_index(0) == sp(0) - 1", e_sub(e_cell(s.stack_pop_index), e_sub(e_cell(s.sp), e_const(1)))),
        at(RowScope::Last, "stack_push_index(0) == sp(0) - 1", e_sub(e_cell(s.stack_push_index), e_sub(e_cell(s.sp), e_const(1)))),
        at(RowScope::Last, "stack_push_sub_index(0) == 0", e_cell(s.stack_push_sub_index)),
        at(RowScope::Last, "stack_push_value_header(0) == false", e_cell(s.stack_push_value_header)),
        at(RowScope::Last, "stack_push_version(0) == clk(0)", e_sub(e_cell(s.stack_push_version), e_cell(s.clk))),
    ]
}

impl ShiftStage1 {
    pub fn configure(cb: &mut ConstraintBuilder) -> (r: ShiftStage1)
        requires
            old(cb).wf(),
            old(cb).scope == RowScope::All,
            old(cb).condition is None,
        ensures
            final(cb).wf(),
            final(cb).scope == RowScope::All,
            final(cb).condition is None,
            final(cb).curr == old(cb).curr,
            final(cb).next_column == old(cb).next_column,
            final(cb).lookups == old(cb).lookups,
            final(cb).constraints@ == old(cb).constraints@ + shift_stage1_constraints(old(cb).curr),
            final(cb).requirements@.len() == old(cb).requirements@.len() + 5,
            final(cb).requirements@.take(old(cb).requirements@.len() as int + 3) == old(cb).requirements@ + seq![
                req(RowScope::First, None, Requirement::NoStackPush),
                req(RowScope::All, None, Requirement::NoLocalOp),
                req(RowScope::All, None, Requirement::StateTransition(StateField::Sp, Transition::Same)),
            ],
            final(cb).requirements@[old(cb).requirements@.len() as int + 3].scope == RowScope::Last,
            final(cb).requirements@[old(cb).requirements@.len() as int + 3].condition is None,
            final(cb).requirements@[old(cb).requirements@.len() as int + 3].requirement matches Requirement::NextStates(v)
                && v@ == seq![ExecutionState::ShiftStage2],
            final(cb).requirements@[old(cb).requirements@.len() as int + 4]
                == req(RowScope::Last, None, Requirement::StateTransition(StateField::Pc, Transition::Same)),
    {
        let s = cb.curr;
        let prev = cb.scope_begin(RowScope::First);
        let ops = [Opcode::Shl, Opcode::Shr];
        cb.require_in_set("opcode in OPCODES", s.opcode.expr(), opcode_exprs(&ops));
        cb.require_equal("step_counter(0) == 2", s.step_counter.expr(), Expression::constant(2));
        cb.require_no_stack_push();
        cb.require_equal("stack_pop_index(0) == sp(0)", s.stack_pop_index.expr(), s.sp.expr());
        cb.scope_end(prev);

        cb.require_zero("stack_pop_sub_index(0) == 0", s.stack_pop_sub_index.expr());
        cb.require_zero("stack_pop_value_header(0) == false", s.stack_pop_value_header.expr());
        cb.require_no_local_op();
        cb.require_state_transition(StateField::Sp, Transition::Same);

        let prev = cb.scope_begin(RowScope::Last);
        cb.require_equal(
            "stack_pop_index(0) == sp(0) - 1",
            s.stack_pop_index.expr(),
            Expression::sub(s.sp.expr(), Expression::constant(1)),
        );
        cb.require_equal(
            "stack_push_index(0) == sp(0) - 1",
            s.stack_push_index.expr(),
            Expression::sub(s.sp.expr(), Expression::constant(1)),
        );
        cb.require_zero("stack_push_sub_index(0) == 0", s.stack_push_sub_index.expr());
        cb.require_zero("stack_push_value_header(0) == false", s.stack_push_value_header.expr());
        cb.require_equal("stack_push_version(0) == clk(0)", s.stack_push_version.expr(), s.clk.expr());
        let ghost before = cb.requirements@;
        cb.require_next_state(ExecutionState::ShiftStage2);
        let ghost mid = cb.requirements@;
        cb.require_state_transition(StateField::Pc, Transition::Same);
        cb.scope_end(prev);
        proof {
            let k = old(cb).requirements@.len() as int;
            assert(before =~= old(cb).requirements@ + seq![
                req(RowScope::First, None, Requirement::NoStackPush),
                req(RowScope::All, None, Requirement::NoLocalOp),
                req(RowScope::All, None, Requirement::StateTransition(StateField::Sp, Transition::Same)),
            ]);
            assert(cb.requirements@.take(k + 3) =~= before) by {
                assert(mid.drop_last() == before);
                assert(cb.requirements@.drop_last() == mid);
            }
            assert(cb.requirements@[k + 3] == mid[k + 3]);
            assert(ops@ =~= shift_opcodes());
            assert(cb.constraints@ =~= old(cb).constraints@ + shift_stage1_constraints(s));
        }
        ShiftStage1
    }
}

} // verus!
