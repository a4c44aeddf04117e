use vstd::prelude::*;
use crate::builder::{Constraint, ConstraintBuilder, RowScope, Requirement, at, e_in_set, req, transition_records};
use crate::executions::common::{e_opcodes, opcode_exprs, push_exit, push_exit_vec};
use crate::expr::{Expression, e_add, e_cell, e_const, e_mul, e_sub};
use crate::lookup_table::{Lookup, Table};
use crate::opcode::Opcode;
use crate::step::StepState;

verus! {

/// `LdConst`: pushes the constant `aux0` of the current module, one flattened
/// limb per row, as the constant table holds it.
#[derive(Debug)]
pub struct LdConst;

pub open spec fn ld_const_constraints(s: StepState) -> Seq<Constraint> {
    let header = e_cell(s.stack_push_value_header);
    seq![
        at(RowScope::First, "opcode in OPCODES", e_in_set(e_cell(s.opcode), e_opcodes(seq![Opcode::LdConst]))),
        at(RowScope::First, "step_counter(0) == flen",
            e_mul(header, e_sub(e_cell(s.step_counter), e_cell(s.stack_push_value.cells[0])))),
        at(RowScope::First, "step_counter(0) == 1",
            e_mul(e_sub(e_const(1), header), e_sub(e_cell(s.step_counter), e_const(1)))),
        at(RowScope::First, "stack_push_sub_index(0) == 0", e_cell(s.stack_push_sub_index)),
        at(RowScope::All, "stack_push_index(0) == sp(0) + 1", e_sub(e_cell(s.stack_push_index), e_add(e_cell(s.sp), e_const(1)))),
    ]
}

/// The row of the constant table that each row of the stage looks up:
/// `(module, constant, sub index, limb 0, limb 1, header)`.
pub open spec fn ld_const_lookup_inputs(s: StepState) -> Seq<Expression> {
    seq![
        e_cell(s.module_index),
        e_cell(s.aux0),
        e_cell(s.stack_push_sub_index),
        e_cell(s.stack_push_value.cells[0]),
        e_cell(s.stack_push_value.cells[1]),
        e_cell(s.stack_push_value_header),
    ]
}

impl LdConst {
    pub fn configure(cb: &mut ConstraintBuilder) -> (r: LdConst)
        requires
            old(cb).wf(),
            old(cb).scope == RowScope::All,
            old(cb).condition is None,
        ensures
            final(cb).wf(),
            final(cb).scope == RowScope::All,
            final(cb).condition is None,
            final(cb).curr == old(cb).curr,
            final(cb).next_column == old(cb).next_column,
            final(cb).constraints@ == old(cb).constraints@ + ld_const_constraints(old(cb).curr),
            final(cb).lookups@.len() == old(cb).lookups@.len() + 1,
            final(cb).lookups@.drop_last() == old(cb).lookups@,
            final(cb).lookups@.last().name == "constant lookup",
            final(cb).lookups@.last().scope == RowScope::All,
            final(cb).lookups@.last().table == Table::Constant,
            final(cb).lookups@.last().inputs@ == ld_const_lookup_inputs(old(cb).curr),
            final(cb).requirements@ == old(cb).requirements@ + seq![
                req(RowScope::All, None, Requirement::NoStackPop),
                req(RowScope::All, None, Requirement::NoLocalOp),
            ] + transition_records(RowScope::Last, None, push_exit()),
    {
        let s = cb.curr;
        let prev = cb.scope_begin(RowScope::First);
        let ops = [Opcode::LdConst];
        cb.require_in_set("opcode in OPCODES", s.opcode.expr(), opcode_exprs(&ops));
        let c = cb.condition_begin(s.stack_push_value_header.expr());
        cb.require_equal("step_counter(0) == flen", s.step_counter.expr(), s.stack_push_value.as_header().flen());
        cb.condition_end(c);
        let c = cb.condition_begin(Expression::sub(Expression::constant(1), s.stack_push_value_header.expr()));
        cb.require_equal("step_counter(0) == 1", s.step_counter.expr(), Expression::constant(1));
        cb.condition_end(c);
        cb.require_zero("stack_push_sub_index(0) == 0", s.stack_push_sub_index.expr());
        cb.scope_end(prev);
        let (v0, v1) = s.stack_push_value.exprs();
        cb.add_lookup(
            "constant lookup",
            Lookup::Constant {
                module_index: s.module_index.expr(),
                constant_index: s.aux0.expr(),
                sub_index: s.stack_push_sub_index.expr(),
                value: [v0, v1],
                header: s.stack_push_value_header.expr(),
            },
        );
        cb.require_equal(
            "stack_push_index(0) == sp(0) + 1",
            s.stack_push_index.expr(),
            Expression::add(s.sp.expr(), Expression::constant(1)),
        );
        cb.require_no_stack_pop();
        cb.require_no_local_op();
        let prev = cb.scope_begin(RowScope::Last);
        cb.require_state_transitions(push_exit_vec());
        cb.scope_end(prev);
        proof {
            assert(ops@ =~= seq![Opcode::LdConst]);
            assert(cb.lookups@.last().inputs@ =~= ld_const_lookup_inputs(s));
            assert(cb.constraints@ =~= old(cb).constraints@ + ld_const_constraints(s));
            assert(cb.requirements@ =~= old(cb).requirements@ + seq![
                req(RowScope::All, None, Requirement::NoStackPop),
                req(RowScope::All, None, Requirement::NoLocalOp),
            ] + transition_records(RowScope::Last, None, push_exit()));
        }
        LdConst
    }
}

} // verus!
