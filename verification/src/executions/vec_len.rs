use vstd::prelude::*;
use crate::builder::{Constraint, ConstraintBuilder, RowScope, Requirement, Transition, at, req, transition_records};
use crate::expr::{Cell, Expression, e_cell, e_const, e_sub};
use crate::opcode::Opcode;
use crate::step::{StateField, StepState, ValueHeader};
use crate::executions::vec_push_back::column_cell;

verus! {

/// `VecLen`: pops the reference to a vector (its frame index, local index and
/// sub index, one popped integer per row, the low limb of each) and pushes
/// the length that the vector's header holds. `value_header` is the header
/// read, in two fresh cells: its flattened length, then its length.
#[derive(Debug)]
pub struct VecLen {
    pub value_header: ValueHeader,
}

/// The constraints of `VecLen` on the current step, the header cells `flen`
/// and `len`.
pub open spec fn vec_len_constraints(s: StepState, flen: Cell, len: Cell) -> Seq<Constraint> {
    let p1 = s.spec_at_offset(-1);
    let p2 = s.spec_at_offset(-2);
    let header = ValueHeader { flen: e_cell(flen), len: e_cell(len) };
    seq![
        at(RowScope::First, "opcode", e_sub(e_cell(s.opcode), e_const(Opcode::VecLen.spec_index() as u128))),
        at(RowScope::First, "step_counter(0) == 4", e_sub(e_cell(s.step_counter), e_const(4))),
        at(RowScope::All, "stack_pop_index(0) == sp(0)", e_sub(e_cell(s.stack_pop_index), e_cell(s.sp))),
        at(RowScope::All, "stack_pop_sub_index(0) == 4 - step_counter(0)",
            e_sub(e_cell(s.stack_pop_sub_index), e_sub(e_const(4), e_cell(s.step_counter)))),
        at(RowScope::Last, "local_frame_index(0) == stack_pop_value(-2)",
            e_sub(e_cell(s.local_frame_index), e_cell(p2.stack_pop_value.cells[0]))),
        at(RowScope::Last, "local_index(0) == stack_pop_value(-1)",
            e_sub(e_cell(s.local_index), e_cell(p1.stack_pop_value.cells[0]))),
        at(RowScope::Last, "local_sub_index(0) == stack_pop_value(0)",
            e_sub(e_cell(s.local_sub_index), e_cell(s.stack_pop_value.cells[0]))),
        at(RowScope::Last, "local_write_value(0) == local_read_value(0)",
            e_sub(s.local_write_value.spec_expr(), s.local_read_value.spec_expr())),
        at(RowScope::Last, "local_write_value_header(0) == local_read_value_header(0)",
            e_sub(e_cell(s.local_write_value_header), e_cell(s.local_read_value_header))),
        at(RowScope::Last, "local_read_value_header(0)", e_sub(e_cell(s.local_read_value_header), e_const(1))),
        at(RowScope::Last, "local_write_value_invalid(0) == local_read_value_invalid(0)",
            e_sub(e_cell(s.local_write_value_invalid), e_cell(s.local_read_value_invalid))),
        at(RowScope::Last, "local_write_version(0) == clk(0)", e_sub(e_cell(s.local_write_version), e_cell(s.clk))),
        at(RowScope::Last, "stack_push_index(0) == sp(0)", e_sub(e_cell(s.stack_push_index), e_cell(s.sp))),
        at(RowScope::Last, "stack_push_sub_index(0) == 0", e_cell(s.stack_push_sub_index)),
        at(RowScope::Last, "local_read_value(0) == value_header",
            e_sub(s.local_read_value.spec_expr(), header.spec_expr(s.local_read_value.challenge))),
        at(RowScope::Last, "stack_push_value(0) == value_header.len", e_sub(s.stack_push_value.spec_expr(), e_cell(len))),
        at(RowScope::Last, "stack_push_value_header(0) == false", e_cell(s.stack_push_value_header)),
        at(RowScope::Last, "stack_push_version(0) == clk(0)", e_sub(e_cell(s.stack_push_version), e_cell(s.clk))),
    ]
}

/// Same frame, module and function, and the next instruction.
pub open spec fn vec_len_exit() -> Seq<(StateField, Transition)> {
    seq![
        (StateField::FrameIndex, Transition::Same),
        (StateField::ModuleIndex, Transition::Same),
        (StateField::FunctionIndex, Transition::Same),
        (StateField::Pc, Transition::Delta(e_const(1))),
    ]
}

impl VecLen {
    #[verifier::rlimit(40)]
    pub fn configure(cb: &mut ConstraintBuilder) -> (r: VecLen)
        requires
            old(cb).wf(),
            old(cb).scope == RowScope::All,
            old(cb).condition is None,
            old(cb).has_room(2),
        ensures
            final(cb).wf(),
            final(cb).scope == RowScope::All,
            final(cb).condition is None,
            final(cb).curr == old(cb).curr,
            final(cb).next_column == old(cb).next_column + 2,
            r.value_header.flen == e_cell(column_cell(old(cb).next_column as nat)),
            r.value_header.len == e_cell(column_cell((old(cb).next_column + 1) as nat)),
            final(cb).lookups == old(cb).lookups,
            final(cb).constraints@ == old(cb).constraints@ + vec_len_constraints(old(cb).curr,
                column_cell(old(cb).next_column as nat), column_cell((old(cb).next_column + 1) as nat)),
            final(cb).requirements@ == old(cb).requirements@ + seq![
                req(RowScope::All, None, Requirement::StateTransition(StateField::Sp, Transition::Same)),
                req(RowScope::NotLast, None, Requirement::NoStackPush),
                req(RowScope::NotLast, None, Requirement::NoLocalOp),
            ] + transition_records(RowScope::Last, None, vec_len_exit()),
    {
        let flen = cb.query_cell();
        let len = cb.query_cell();
        let value_header = ValueHeader::pair(len.expr(), flen.expr());
        let s = cb.curr;
        let p1 = cb.step_state_at_offset(-1);
        let p2 = cb.step_state_at_offset(-2);

        let prev = cb.scope_begin(RowScope::First);
        cb.require_equal("opcode", s.opcode.expr(), Expression::constant(Opcode::VecLen.index() as u128));
        cb.require_equal("step_counter(0) == 4", s.step_counter.expr(), Expression::constant(4));
        cb.scope_end(prev);
        cb.require_equal("stack_pop_index(0) == sp(0)", s.stack_pop_index.expr(), s.sp.expr());
        cb.require_equal(
            "stack_pop_sub_index(0) == 4 - step_counter(0)",
            s.stack_pop_sub_index.expr(),
            Expression::sub(Expression::constant(4), s.step_counter.expr()),
        );
        cb.require_state_transition(StateField::Sp, Transition::Same);

        let prev = cb.scope_begin(RowScope::NotLast);
        cb.require_no_stack_push();
        cb.require_no_local_op();
        cb.scope_end(prev);

        let prev = cb.scope_begin(RowScope::Last);
        cb.require_equal(
            "local_frame_index(0) == stack_pop_value(-2)",
            s.local_frame_index.expr(),
            p2.stack_pop_value.as_integer().lo(),
        );
        cb.require_equal("local_index(0) == stack_pop_value(-1)", s.local_index.expr(), p1.stack_pop_value.as_integer().lo());
        cb.require_equal(
            "local_sub_index(0) == stack_pop_value(0)",
            s.local_sub_index.expr(),
            s.stack_pop_value.as_integer().lo(),
        );
        cb.require_equal("local_write_value(0) == local_read_value(0)", s.local_write_value.expr(), s.local_read_value.expr());
        cb.require_equal(
            "local_write_value_header(0) == local_read_value_header(0)",
            s.local_write_value_header.expr(),
            s.local_read_value_header.expr(),
        );
        cb.require_true("local_read_value_header(0)", s.local_read_value_header.expr());
        cb.require_equal(
            "local_write_value_invalid(0) == local_read_value_invalid(0)",
            s.local_write_value_invalid.expr(),
            s.local_read_value_invalid.expr(),
        );
        cb.require_equal("local_write_version(0) == clk(0)", s.local_write_version.expr(), s.clk.expr());
        cb.require_equal("stack_push_index(0) == sp(0)", s.stack_push_index.expr(), s.sp.expr());
        cb.require_zero("stack_push_sub_index(0) == 0", s.stack_push_sub_index.expr());
        cb.require_equal(
            "local_read_value(0) == value_header",
            s.local_read_value.expr(),
            value_header.expr(s.local_read_value.challenge),
        );
        cb.require_equal("stack_push_value(0) == value_header.len", s.stack_push_value.expr(), value_header.len());
        cb.require_zero("stack_push_value_header(0) == false", s.stack_push_value_header.expr());
        cb.require_equal("stack_push_version(0) == clk(0)", s.stack_push_version.expr(), s.clk.expr());
        let exit = vec![
            (StateField::FrameIndex, Transition::Same),
            (StateField::ModuleIndex, Transition::Same),
            (StateField::FunctionIndex, Transition::Same),
            (StateField::Pc, Transition::Delta(Expression::constant(1))),
        ];
        proof {
            assert(exit@ =~= vec_len_exit());
        }
        cb.require_state_transitions(exit);
        cb.scope_end(prev);
        proof {
            assert(cb.constraints@ =~= old(cb).constraints@ + vec_len_constraints(s, flen, len));
            assert(cb.requirements@ =~= old(cb).requirements@ + seq![
                req(RowScope::All, None, Requirement::StateTransition(StateField::Sp, Transition::Same)),
                req(RowScope::NotLast, None, Requirement::NoStackPush),
                req(RowScope::NotLast, None, Requirement::NoLocalOp),
            ] + transition_records(RowScope::Last, None, vec_len_exit()));
        }
        VecLen { value_header }
    }
}

} // verus!
