use vstd::prelude::*;
use crate::builder::{Constraint, ConstraintBuilder, RowScope, Requirement, Transition, at, req, transition_records};
use crate::expr::{Cell, Expression, e_add, e_cell, e_const, e_mul, e_sub};
use crate::lookup_table::Table;
use crate::step::{StateField, StepState, ValueHeader};

verus! {

/// `MoveLoc` (`MOVE`) or `CopyLoc`: pushes local `aux0` of the current frame,
/// one flattened limb per row; a move leaves the local invalid, a copy leaves
/// it as it was.
#[derive(Debug)]
pub struct MoveOrCopyLoc<const MOVE: bool>;

/// The constraints of the stage, with the cells `len` and `flen` of the header.
pub open spec fn move_or_copy_loc_constraints(mv: bool, s: StepState, len: Cell, flen: Cell) -> Seq<Constraint> {
    let h = e_cell(s.stack_push_value_header);
    let not_h = e_sub(e_const(1), h);
    let header = ValueHeader { flen: e_cell(flen), len: e_cell(len) }.spec_expr(s.stack_push_value.challenge);
    let common = seq![
        at(RowScope::First, "(len, flen) = stack_push_value(0)", e_mul(h, e_sub(s.stack_push_value.spec_expr(), header))),
        at(RowScope::First, "step_counter(0) == flen", e_mul(h, e_sub(e_cell(s.step_counter), e_cell(flen)))),
        at(RowScope::First, "step_counter(0) == 1", e_mul(not_h, e_sub(e_cell(s.step_counter), e_const(1)))),
        at(RowScope::All, "stack_push_index(0) == sp(0)+1", e_sub(e_cell(s.stack_push_index), e_add(e_cell(s.sp), e_const(1)))),
        at(RowScope::First, "stack_push_sub_index(0) == 0", e_cell(s.stack_push_sub_index)),
        at(RowScope::All, "stack_push_version == clk(0)", e_sub(e_cell(s.stack_push_version), e_cell(s.clk))),
        at(RowScope::All, "local_frame_index(0) == frame_index(0)", e_sub(e_cell(s.local_frame_index), e_cell(s.frame_index))),
        at(RowScope::All, "local_index(0) == aux0(0)", e_sub(e_cell(s.local_index), e_cell(s.aux0))),
        at(RowScope::All, "local_sub_index(0) == stack_push_sub_index(0)",
            e_sub(e_cell(s.local_sub_index), e_cell(s.stack_push_sub_index))),
        at(RowScope::All, "lcoal_read_value(0) != INVALID", e_cell(s.local_read_value_invalid)),
        at(RowScope::All, "local_read_value(0) == stack_push_value(0)",
            e_sub(s.local_read_value.spec_expr(), s.stack_push_value.spec_expr())),
        at(RowScope::All, "local_read_value_header(0) == stack_push_value_header(0)",
            e_sub(e_cell(s.local_read_value_header), e_cell(s.stack_push_value_header))),
    ];
    let write = if mv {
        seq![at(RowScope::All, "local_write_value(0) == INVALID", e_sub(e_cell(s.local_write_value_invalid), e_const(1)))]
    } else {
        seq![
            at(RowScope::All, "local_write_value(0) == local_read_value(0)",
                e_sub(s.local_write_value.spec_expr(), s.local_read_value.spec_expr())),
            at(RowScope::All, "local_write_value_header(0) == local_read_value_header(0)",
                e_sub(e_cell(s.local_write_value_header), e_cell(s.local_read_value_header))),
            at(RowScope::All, "local_write_value_invalid(0) == local_read_value_invalid(0)",
                e_sub(e_cell(s.local_write_value_invalid), e_cell(s.local_read_value_invalid))),
        ]
    };
    common + write + seq![
        at(RowScope::All, "local_write_version == clk(0)", e_sub(e_cell(s.local_write_version), e_cell(s.clk))),
    ]
}

/// Same frame, module and function; next instruction; one more stack slot.
pub open spec fn load_local_exit() -> Seq<(StateField, Transition)> {
    seq![
        (StateField::FrameIndex, Transition::Same),
        (StateField::ModuleIndex, Transition::Same),
        (StateField::FunctionIndex, Transition::Same),
        (StateField::Pc, Transition::Delta(e_const(1))),
        (StateField::Sp, Transition::Delta(e_const(1))),
    ]
}

impl<const MOVE: bool> MoveOrCopyLoc<MOVE> {
    pub fn configure(cb: &mut ConstraintBuilder) -> (r: Self)
        requires
            old(cb).wf(),
            old(cb).scope == RowScope::All,
            old(cb).condition is None,
            old(cb).has_room(2),
        ensures
            final(cb).wf(),
            final(cb).scope == RowScope::All,
            final(cb).condition is None,
            final(cb).curr == old(cb).curr,
            final(cb).next_column == old(cb).next_column + 2,
            final(cb).constraints@ == old(cb).constraints@ + move_or_copy_loc_constraints(MOVE, old(cb).curr,
                Cell { column: old(cb).next_column, rotation: 0 },
                Cell { column: (old(cb).next_column + 1) as usize, rotation: 0 }),
            final(cb).lookups@.len() == old(cb).lookups@.len() + 2,
            final(cb).lookups@.take(old(cb).lookups@.len() as int) == old(cb).lookups@,
            final(cb).lookups@[old(cb).lookups@.len() as int].table == Table::U16,
            final(cb).lookups@[old(cb).lookups@.len() as int].scope == RowScope::All,
            final(cb).lookups@[old(cb).lookups@.len() as int].inputs@
                == seq![e_cell(Cell { column: old(cb).next_column, rotation: 0 })],
            final(cb).lookups@[old(cb).lookups@.len() as int + 1].table == Table::U16,
            final(cb).lookups@[old(cb).lookups@.len() as int + 1].scope == RowScope::All,
            final(cb).lookups@[old(cb).lookups@.len() as int + 1].inputs@
                == seq![e_cell(Cell { column: (old(cb).next_column + 1) as usize, rotation: 0 })],
            final(cb).requirements@ == old(cb).requirements@ + seq![req(RowScope::All, None, Requirement::NoStackPop)]
                + transition_records(RowScope::Last, None, load_local_exit()),
    {
        let value_len = cb.query_u16();
        let ghost l1 = cb.lookups@;
        let value_flen = cb.query_u16();
        let ghost l2 = cb.lookups@;
        let header = ValueHeader::pair(value_len.expr(), value_flen.expr());
        let s = cb.curr;

        let prev = cb.scope_begin(RowScope::First);
        let c = cb.condition_begin(s.stack_push_value_header.expr());
        cb.require_equal("(len, flen) = stack_push_value(0)", s.stack_push_value.expr(), header.expr(s.stack_push_value.challenge));
        cb.require_equal("step_counter(0) == flen", s.step_counter.expr(), value_flen.expr());
        cb.condition_end(c);
        let c = cb.condition_begin(Expression::sub(Expression::constant(1), s.stack_push_value_header.expr()));
        cb.require_equal("step_counter(0) == 1", s.step_counter.expr(), Expression::constant(1));
        cb.condition_end(c);
        cb.scope_end(prev);
        cb.require_equal(
            "stack_push_index(0) == sp(0)+1",
            s.stack_push_index.expr(),
            Expression::add(s.sp.expr(), Expression::constant(1)),
        );
        let prev = cb.scope_begin(RowScope::First);
        cb.require_zero("stack_push_sub_index(0) == 0", s.stack_push_sub_index.expr());
        cb.scope_end(prev);
        cb.require_equal("stack_push_version == clk(0)", s.stack_push_version.expr(), s.clk.expr());
        cb.require_no_stack_pop();
        cb.require_equal("local_frame_index(0) == frame_index(0)", s.local_frame_index.expr(), s.frame_index.expr());
        cb.require_equal("local_index(0) == aux0(0)", s.local_index.expr(), s.aux0.expr());
        cb.require_equal(
            "local_sub_index(0) == stack_push_sub_index(0)",
            s.local_sub_index.expr(),
            s.stack_push_sub_index.expr(),
        );
        cb.require_zero("lcoal_read_value(0) != INVALID", s.local_read_value_invalid.expr());
        cb.require_equal("local_read_value(0) == stack_push_value(0)", s.local_read_value.expr(), s.stack_push_value.expr());
        cb.require_equal(
            "local_read_value_header(0) == stack_push_value_header(0)",
            s.local_read_value_header.expr(),
            s.stack_push_value_header.expr(),
        );
        if MOVE {
            cb.require_true("local_write_value(0) == INVALID", s.local_write_value_invalid.expr());
        } else {
            cb.require_equal(
                "local_write_value(0) == local_read_value(0)",
                s.local_write_value.expr(),
                s.local_read_value.expr(),
            );
            cb.require_equal(
                "local_write_value_header(0) == local_read_value_header(0)",
                s.local_write_value_header.expr(),
                s.local_read_value_header.expr(),
            );
            cb.require_equal(
                "local_write_value_invalid(0) == local_read_value_invalid(0)",
                s.local_write_value_invalid.expr(),
                s.local_read_value_invalid.expr(),
            );
        }
        cb.require_equal("local_write_version == clk(0)", s.local_write_version.expr(), s.clk.expr());
        let prev = cb.scope_begin(RowScope::Last);
        let exit = vec![
            (StateField::FrameIndex, Transition::Same),
            (StateField::ModuleIndex, Transition::Same),
            (StateField::FunctionIndex, Transition::Same),
            (StateField::Pc, Transition::Delta(Expression::constant(1))),
            (StateField::Sp, Transition::Delta(Expression::constant(1))),
        ];
        proof {
            assert(exit@ =~= load_local_exit());
        }
        cb.require_state_transitions(exit);
        cb.scope_end(prev);
        proof {
            let k = old(cb).lookups@.len() as int;
            assert(l1.drop_last() == old(cb).lookups@);
            assert(l2.drop_last() == l1);
            assert(cb.lookups@ == l2);
            assert(cb.lookups@.take(k) =~= old(cb).lookups@);
            assert(cb.lookups@[k] == l1.last());
            assert(cb.lookups@[k].inputs@ =~= seq![e_cell(value_len)]);
            assert(cb.lookups@[k + 1].inputs@ =~= seq![e_cell(value_flen)]);
            assert(cb.constraints@ =~= old(cb).constraints@ + move_or_copy_loc_constraints(MOVE, s, value_len, value_flen));
            assert(cb.requirements@ =~= old(cb).requirements@ + seq![req(RowScope::All, None, Requirement::NoStackPop)]
                + transition_records(RowScope::Last, None, load_local_exit()));
        }
        MoveOrCopyLoc
    }
}

} // verus!
