use vstd::prelude::*;
use crate::builder::{Constraint, ConstraintBuilder, RowScope, Requirement, Transition, at, e_in_set, req,
    transition_records};
use crate::executions::common::{e_opcodes, minus_one, opcode_exprs, same_location, same_location_vec};
use crate::expr::{Expression, e_cell, e_const, e_mul, e_sub};
use crate::opcode::Opcode;
use crate::step::{ExecutionState, StateField, StepState};

verus! {

/// The first stage of `StLoc`: reads local `aux0` of the current frame, one
/// flattened limb per row, and leaves it invalid.
#[derive(Debug)]
pub struct StoreLocStage1;

/// The second stage of `StLoc`: pops the value, one flattened limb per row,
/// and writes it into the local.
#[derive(Debug)]
pub struct StoreLocStage2;

pub open spec fn store_loc_stage1_constraints(s: StepState) -> Seq<Constraint> {
    let valid = e_sub(e_const(1), e_cell(s.local_read_value_invalid));
    let h = e_cell(s.local_read_value_header);
    seq![
        at(RowScope::All, "opcode in OPCODES", e_in_set(e_cell(s.opcode), e_opcodes(seq![Opcode::StLoc]))),
        at(RowScope::First, "step_counter(0) == local_read_value(0).as_header().flen",
            e_mul(e_mul(valid, h), e_sub(e_cell(s.step_counter), e_cell(s.local_read_value.cells[0])))),
        at(RowScope::First, "step_counter(0) == 1",
            e_mul(e_mul(valid, e_sub(e_const(1), h)), e_sub(e_cell(s.step_counter), e_const(1)))),
        at(RowScope::All, "local_frame_index(0) == frame_index(0)", e_sub(e_cell(s.local_frame_index), e_cell(s.frame_index))),
        at(RowScope::All, "local_index(0) == aux0(0)", e_sub(e_cell(s.local_index), e_cell(s.aux0))),
        at(RowScope::First, "local_sub_index(0) == 0", e_cell(s.local_sub_index)),
        at(RowScope::All, "local_write_value_invalid(0) == true", e_sub(e_cell(s.local_write_value_invalid), e_const(1))),
        at(RowScope::All, "local_write_value_header(0) == local_read_value_header(0)",
            e_sub(e_cell(s.local_write_value_header), e_cell(s.local_read_value_header))),
        at(RowScope::All, "local_write_version(0) == clk(0)", e_sub(e_cell(s.local_write_version), e_cell(s.clk))),
    ]
}

impl StoreLocStage1 {
    pub fn configure(cb: &mut ConstraintBuilder) -> (r: StoreLocStage1)
        requires
            old(cb).wf(),
            old(cb).scope == RowScope::All,
            old(cb).condition is None,
        ensures
            final(cb).wf(),
            final(cb).scope == RowScope::All,
            final(cb).condition is None,
            final(cb).curr == old(cb).curr,
            final(cb).next_column == old(cb).next_column,
            final(cb).lookups == old(cb).lookups,
            final(cb).constraints@ == old(cb).constraints@ + store_loc_stage1_constraints(old(cb).curr),
            final(cb).requirements@.len() == old(cb).requirements@.len() + 11,
            final(cb).requirements@.drop_last() == old(cb).requirements@ + seq![
                req(RowScope::All, None, Requirement::NoStackPop),
                req(RowScope::All, None, Requirement::NoStackPush),
                req(RowScope::All, None, Requirement::StateTransition(StateField::Sp, Transition::Same)),
            ] + transition_records(RowScope::Last, None, same_location()),
            final(cb).requirements@.last().scope == RowScope::Last,
            final(cb).requirements@.last().condition is None,
            final(cb).requirements@.last().requirement matches Requirement::NextStates(v)
                && v@ == seq![ExecutionState::StoreLocStage2],
    {
        let s = cb.curr;
        cb.require_no_stack_pop();
        cb.require_no_stack_push();
        let ops = [Opcode::StLoc];
        cb.require_in_set("opcode in OPCODES", s.opcode.expr(), opcode_exprs(&ops));
        let prev = cb.scope_begin(RowScope::First);
        let c0 = cb.condition_begin(Expression::sub(Expression::constant(1), s.local_read_value_invalid.expr()));
        let c1 = cb.condition_begin(s.local_read_value_header.expr());
        cb.require_equal(
            "step_counter(0) == local_read_value(0).as_header().flen",
            s.step_counter.expr(),
            s.local_read_value.as_header().flen(),
        );
        cb.condition_end(c1);
        let c1 = cb.condition_begin(Expression::sub(Expression::constant(1), s.local_read_value_header.expr()));
        cb.require_equal("step_counter(0) == 1", s.step_counter.expr(), Expression::constant(1));
        cb.condition_end(c1);
        cb.condition_end(c0);
        cb.scope_end(prev);
        cb.require_equal("local_frame_index(0) == frame_index(0)", s.local_frame_index.expr(), s.frame_index.expr());
        cb.require_equal("local_index(0) == aux0(0)", s.local_index.expr(), s.aux0.expr());
        let prev = cb.scope_begin(RowScope::First);
        cb.require_zero("local_sub_index(0) == 0", s.local_sub_index.expr());
        cb.scope_end(prev);
        cb.require_true("local_write_value_invalid(0) == true", s.local_write_value_invalid.expr());
        cb.require_equal(
            "local_write_value_header(0) == local_read_value_header(0)",
            s.local_write_value_header.expr(),
            s.local_read_value_header.expr(),
        );
        cb.require_equal("local_write_version(0) == clk(0)", s.local_write_version.expr(), s.clk.expr());
        cb.require_state_transition(StateField::Sp, Transition::Same);
        let prev = cb.scope_begin(RowScope::Last);
        cb.require_state_transitions(same_location_vec());
        let ghost mid = cb.requirements@;
        cb.require_next_state(ExecutionState::StoreLocStage2);
        cb.scope_end(prev);
        proof {
            assert(ops@ =~= seq![Opcode::StLoc]);
            assert(cb.constraints@ =~= old(cb).constraints@ + store_loc_stage1_constraints(s));
            assert(mid =~= old(cb).requirements@ + seq![
                req(RowScope::All, None, Requirement::NoStackPop),
                req(RowScope::All, None, Requirement::NoStackPush),
                req(RowScope::All, None, Requirement::StateTransition(StateField::Sp, Transition::Same)),
            ] + transition_records(RowScope::Last, None, same_location()));
        }
        StoreLocStage1
    }
}

pub open spec fn store_loc_stage2_constraints(s: StepState) -> Seq<Constraint> {
    let h = e_cell(s.stack_pop_value_header);
    seq![
        at(RowScope::All, "stack_pop_index(0) == sp(0)", e_sub(e_cell(s.stack_pop_index), e_cell(s.sp))),
        at(RowScope::First, "stack_pop_sub_index(0) == 0", e_cell(s.stack_pop_sub_index)),
        at(RowScope::First, "step_counter(0) == stack_pop_value(0).as_header().flen",
            e_mul(h, e_sub(e_cell(s.step_counter), e_cell(s.stack_pop_value.cells[0])))),
        at(RowScope::First, "step_counter(0) == 1", e_mul(e_sub(e_const(1), h), e_sub(e_cell(s.step_counter), e_const(1)))),
        at(RowScope::All, "local_frame_index(0) == frame_index(0)", e_sub(e_cell(s.local_frame_index), e_cell(s.frame_index))),
        at(RowScope::All, "local_index(0) == aux0(0)", e_sub(e_cell(s.local_index), e_cell(s.aux0))),
        at(RowScope::All, "local_sub_index(0) == stack_pop_sub_index(0)",
            e_sub(e_cell(s.local_sub_index), e_cell(s.stack_pop_sub_index))),
        at(RowScope::All, "local_read_value_invalid(0) == true", e_sub(e_cell(s.local_read_value_invalid), e_const(1))),
        at(RowScope::All, "local_write_value(0) == stack_pop_value(0)",
            e_sub(s.local_write_value.spec_expr(), s.stack_pop_value.spec_expr())),
        at(RowScope::All, "local_write_value_header(0) == stack_pop_value_header(0)",
            e_sub(e_cell(s.local_write_value_header), e_cell(s.stack_pop_value_header))),
        at(RowScope::All, "local_write_value(0) != INVALID", e_cell(s.local_write_value_invalid)),
        at(RowScope::All, "local_write_version(0) == clk(0)", e_sub(e_cell(s.local_write_version), e_cell(s.clk))),
    ]
}

/// Same frame, module and function; next instruction; one stack slot freed.
pub open spec fn store_exit() -> Seq<(StateField, Transition)> {
    seq![
        (StateField::FrameIndex, Transition::Same),
        (StateField::ModuleIndex, Transition::Same),
        (StateField::FunctionIndex, Transition::Same),
        (StateField::Pc, Transition::Delta(e_const(1))),
        (StateField::Sp, Transition::Delta(minus_one())),
    ]
}

impl StoreLocStage2 {
    pub fn configure(cb: &mut ConstraintBuilder) -> (r: StoreLocStage2)
        requires
            old(cb).wf(),
            old(cb).scope == RowScope::All,
            old(cb).condition is None,
        ensures
            final(cb).wf(),
            final(cb).scope == RowScope::All,
            final(cb).condition is None,
            final(cb).curr == old(cb).curr,
            final(cb).next_column == old(cb).next_column,
            final(cb).lookups == old(cb).lookups,
            final(cb).constraints@ == old(cb).constraints@ + store_loc_stage2_constraints(old(cb).curr),
            final(cb).requirements@.len() == old(cb).requirements@.len() + 8,
            final(cb).requirements@.take(old(cb).requirements@.len() as int) == old(cb).requirements@,
            final(cb).requirements@[old(cb).requirements@.len() as int].scope == RowScope::First,
            final(cb).requirements@[old(cb).requirements@.len() as int].condition is None,
            final(cb).requirements@[old(cb).requirements@.len() as int].requirement matches Requirement::PrevStates(v)
                && v@ == seq![ExecutionState::StoreLocStage1],
            final(cb).requirements@.skip(old(cb).requirements@.len() as int + 1) == seq![
                req(RowScope::All, None, Requirement::NoStackPush),
                req(RowScope::NotLast, None, Requirement::StateTransition(StateField::Sp, Transition::Same)),
            ] + transition_records(RowScope::Last, None, store_exit()),
    {
        let prev = cb.scope_begin(RowScope::First);
        cb.require_prev_state(ExecutionState::StoreLocStage1);
        cb.scope_end(prev);
        let ghost mid = cb.requirements@;
        let s = cb.curr;
        cb.require_no_stack_push();
        cb.require_equal("stack_pop_index(0) == sp(0)", s.stack_pop_index.expr(), s.sp.expr());
        let prev = cb.scope_begin(RowScope::First);
        cb.require_zero("stack_pop_sub_index(0) == 0", s.stack_pop_sub_index.expr());
        let c = cb.condition_begin(s.stack_pop_value_header.expr());
        cb.require_equal(
            "step_counter(0) == stack_pop_value(0).as_header().flen",
            s.step_counter.expr(),
            s.stack_pop_value.as_header().flen(),
        );
        cb.condition_end(c);
        let c = cb.condition_begin(Expression::sub(Expression::constant(1), s.stack_pop_value_header.expr()));
        cb.require_equal("step_counter(0) == 1", s.step_counter.expr(), Expression::constant(1));
        cb.condition_end(c);
        cb.scope_end(prev);
        cb.require_equal("local_frame_index(0) == frame_index(0)", s.local_frame_index.expr(), s.frame_index.expr());
        cb.require_equal("local_index(0) == aux0(0)", s.local_index.expr(), s.aux0.expr());
        cb.require_equal(
            "local_sub_index(0) == stack_pop_sub_index(0)",
            s.local_sub_index.expr(),
            s.stack_pop_sub_index.expr(),
        );
        cb.require_true("local_read_value_invalid(0) == true", s.local_read_value_invalid.expr());
        cb.require_equal("local_write_value(0) == stack_pop_value(0)", s.local_write_value.expr(), s.stack_pop_value.expr());
        cb.require_equal(
            "local_write_value_header(0) == stack_pop_value_header(0)",
            s.local_write_value_header.expr(),
            s.stack_pop_value_header.expr(),
        );
        cb.require_zero("local_write_value(0) != INVALID", s.local_write_value_invalid.expr());
        cb.require_equal("local_write_version(0) == clk(0)", s.local_write_version.expr(), s.clk.expr());
        let prev = cb.scope_begin(RowScope::NotLast);
        cb.require_state_transition(StateField::Sp, Transition::Same);
        cb.scope_end(prev);
        let prev = cb.scope_begin(RowScope::Last);
        let exit = vec![
            (StateField::FrameIndex, Transition::Same),
            (StateField::ModuleIndex, Transition::Same),
            (StateField::FunctionIndex, Transition::Same),
            (StateField::Pc, Transition::Delta(Expression::constant(1))),
            (StateField::Sp, Transition::Delta(Expression::neg(Expression::constant(1)))),
        ];
        proof {
            assert(exit@ =~= store_exit());
        }
        cb.require_state_transitions(exit);
        cb.scope_end(prev);
        proof {
            let k = old(cb).requirements@.len() as int;
            assert(cb.requirements@.take(k + 1) =~= mid);
            assert(cb.requirements@.take(k) =~= old(cb).requirements@) by {
                assert(mid.drop_last() == old(cb).requirements@);
                assert(mid.take(k) =~= cb.requirements@.take(k));
            }
            assert(cb.requirements@[k] == mid[k]);
            assert(cb.requirements@.skip(k + 1) =~= seq![
                req(RowScope::All, None, Requirement::NoStackPush),
                req(RowScope::NotLast, None, Requirement::StateTransition(StateField::Sp, Transition::Same)),
            ] + transition_records(RowScope::Last, None, store_exit()));
            assert(cb.constraints@ =~= old(cb).constraints@ + store_loc_stage2_constraints(s));
        }
        StoreLocStage2
    }
}

} // verus!
