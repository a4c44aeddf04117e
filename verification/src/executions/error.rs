use vstd::prelude::*;
use crate::builder::{Constraint, ConstraintBuilder, RowScope, Requirement, at, req};
use crate::expr::{Expression, e_cell, e_const, e_sub};
use crate::step::{ExecutionState, StepState};

verus! {

/// The state entered on an execution error; only its skeleton is constrained.
#[derive(Debug)]
pub struct ErrorState;

pub open spec fn error_state_constraints(s: StepState) -> Seq<Constraint> {
    seq![
        at(RowScope::All, "opcode = 0", e_cell(s.opcode)),
        at(RowScope::All, "step_counter(0) == 1", e_sub(e_cell(s.step_counter), e_const(1))),
    ]
}

impl ErrorState {
    pub fn configure(cb: &mut ConstraintBuilder) -> (r: ErrorState)
        requires
            old(cb).wf(),
            old(cb).scope == RowScope::All,
            old(cb).condition is None,
        ensures
            final(cb).wf(),
            final(cb).scope == RowScope::All,
            final(cb).condition is None,
            final(cb).curr == old(cb).curr,
            final(cb).next_column == old(cb).next_column,
            final(cb).lookups == old(cb).lookups,
            final(cb).constraints@ == old(cb).constraints@ + error_state_constraints(old(cb).curr),
            final(cb).requirements@.len() == old(cb).requirements@.len() + 4,
            final(cb).requirements@.take(old(cb).requirements@.len() as int + 3) == old(cb).requirements@ + seq![
                req(RowScope::All, None, Requirement::NoStackPop),
                req(RowScope::All, None, Requirement::NoStackPush),
                req(RowScope::All, None, Requirement::NoLocalOp),
            ],
            final(cb).requirements@.last().scope == RowScope::All,
            final(cb).requirements@.last().condition is None,
            final(cb).requirements@.last().requirement matches Requirement::NextStates(v)
                && v@ == seq![ExecutionState::Teardown, ExecutionState::Stop],
    {
        let s = cb.curr;
        cb.require_zero("opcode = 0", s.opcode.expr());
        cb.require_equal("step_counter(0) == 1", s.step_counter.expr(), Expression::constant(1));
        cb.require_no_stack_pop();
        cb.require_no_stack_push();
        cb.require_no_local_op();
        let ghost before = cb.requirements@;
        let next = vec![ExecutionState::Teardown, ExecutionState::Stop];
        proof {
            assert(next@ =~= seq![ExecutionState::Teardown, ExecutionState::Stop]);
        }
        cb.require_next_states(next);
        proof {
            assert(cb.constraints@ =~= old(cb).constraints@ + error_state_constraints(s));
            assert(cb.requirements@.take(old(cb).requirements@.len() as int + 3) =~= before);
            assert(before =~= old(cb).requirements@ + seq![
                req(RowScope::All, None, Requirement::NoStackPop),
                req(RowScope::All, None, Requirement::NoStackPush),
                req(RowScope::All, None, Requirement::NoLocalOp),
            ]);
        }
        ErrorState
    }
}

} // verus!
