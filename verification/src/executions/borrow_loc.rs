use vstd::prelude::*;
use crate::builder::{Constraint, ConstraintBuilder, RowScope, Requirement, at, e_in_set, req, transition_records};
use crate::executions::common::{e_opcodes, opcode_exprs, push_exit, push_exit_vec};
use crate::expr::{Expression, e_add, e_cell, e_const, e_sub};
use crate::opcode::Opcode;
use crate::step::{Index, StepState};

verus! {

/// `MutBorrowLoc` (`MUTABLE`) or `ImmBorrowLoc`: pushes a reference to the
/// local `aux0` of the current frame.
#[derive(Debug)]
pub struct BorrowLoc<const MUTABLE: bool>;

pub open spec fn borrow_loc_opcode(mutable: bool) -> Opcode {
    if mutable { Opcode::MutBorrowLoc } else { Opcode::ImmBorrowLoc }
}

/// The index of local `aux0` in the current frame.
pub open spec fn local_index_of(s: StepState) -> Expression {
    Index { frame_index: e_cell(s.frame_index), local_index: e_cell(s.aux0) }.spec_expr()
}

pub open spec fn borrow_loc_constraints(mutable: bool, s: StepState) -> Seq<Constraint> {
    seq![
        at(RowScope::All, "opcode in OPCODES", e_in_set(e_cell(s.opcode), e_opcodes(seq![borrow_loc_opcode(mutable)]))),
        at(RowScope::All, "step_counter(0) == 1", e_sub(e_cell(s.step_counter), e_const(1))),
        at(RowScope::All, "stack_push_value(0).index == index", e_sub(e_cell(s.stack_push_value.cells[0]), local_index_of(s))),
        at(RowScope::All, "stack_push_value(0).sub_index == sub_index", e_sub(e_cell(s.stack_push_value.cells[1]), e_const(0))),
        at(RowScope::All, "stack_push_value_header(0) == false", e_cell(s.stack_push_value_header)),
        at(RowScope::All, "stack_push_index(0) == sp(0) + 1", e_sub(e_cell(s.stack_push_index), e_add(e_cell(s.sp), e_const(1)))),
        at(RowScope::All, "stack_push_sub_index(0) == 0", e_cell(s.stack_push_sub_index)),
        at(RowScope::All, "stack_push_version(0) == clk(0)", e_sub(e_cell(s.stack_push_version), e_cell(s.clk))),
    ]
}

impl<const MUTABLE: bool> BorrowLoc<MUTABLE> {
    pub fn configure(cb: &mut ConstraintBuilder) -> (r: Self)
        requires
            old(cb).wf(),
            old(cb).scope == RowScope::All,
            old(cb).condition is None,
        ensures
            final(cb).wf(),
            final(cb).scope == RowScope::All,
            final(cb).condition is None,
            final(cb).curr == old(cb).curr,
            final(cb).next_column == old(cb).next_column,
            final(cb).lookups == old(cb).lookups,
            final(cb).constraints@ == old(cb).constraints@ + borrow_loc_constraints(MUTABLE, old(cb).curr),
            final(cb).requirements@ == old(cb).requirements@ + seq![
                req(RowScope::All, None, Requirement::NoStackPop),
                req(RowScope::All, None, Requirement::NoLocalOp),
            ] + transition_records(RowScope::All, None, push_exit()),
    {
        let s = cb.curr;
        let ops = [if MUTABLE { Opcode::MutBorrowLoc } else { Opcode::ImmBorrowLoc }];
        cb.require_in_set("opcode in OPCODES", s.opcode.expr(), opcode_exprs(&ops));
        cb.require_equal("step_counter(0) == 1", s.step_counter.expr(), Expression::constant(1));
        let index = Index::new(s.frame_index.expr(), s.aux0.expr());
        cb.require_equal(
            "stack_push_value(0).index == index",
            s.stack_push_value.as_reference().index(),
            index.expr(),
        );
        cb.require_equal(
            "stack_push_value(0).sub_index == sub_index",
            s.stack_push_value.as_reference().sub_index(),
            Expression::constant(0),
        );
        cb.require_zero("stack_push_value_header(0) == false", s.stack_push_value_header.expr());
        cb.require_equal(
            "stack_push_index(0) == sp(0) + 1",
            s.stack_push_index.expr(),
            Expression::add(s.sp.expr(), Expression::constant(1)),
        );
        cb.require_zero("stack_push_sub_index(0) == 0", s.stack_push_sub_index.expr());
        cb.require_equal("stack_push_version(0) == clk(0)", s.stack_push_version.expr(), s.clk.expr());
        cb.require_no_stack_pop();
        cb.require_no_local_op();
        cb.require_state_transitions(push_exit_vec());
        proof {
            assert(ops@ =~= seq![borrow_loc_opcode(MUTABLE)]);
            assert(cb.constraints@ =~= old(cb).constraints@ + borrow_loc_constraints(MUTABLE, s));
            assert(cb.requirements@ =~= old(cb).requirements@ + seq![
                req(RowScope::All, None, Requirement::NoStackPop),
                req(RowScope::All, None, Requirement::NoLocalOp),
            ] + transition_records(RowScope::All, None, push_exit()));
        }
        BorrowLoc
    }
}

} // verus!
