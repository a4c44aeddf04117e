use vstd::prelude::*;
use crate::builder::{Constraint, ConstraintBuilder, RowScope, Requirement, at, e_in_set, req, transition_records};
use crate::executions::common::{e_opcodes, opcode_exprs, push_exit, push_exit_vec};
use crate::expr::{Expression, Witness, e_add, e_cell, e_const, e_sub, eval};
use crate::field::modulus;
use crate::opcode::Opcode;
use crate::step::StepState;

verus! {

/// `LdTrue` (`TRUE`) or `LdFalse`: pushes the boolean constant.
#[derive(Debug)]
pub struct LdBool<const TRUE: bool>;

pub open spec fn ld_bool_opcode(value: bool) -> Opcode {
    if value { Opcode::LdTrue } else { Opcode::LdFalse }
}

pub open spec fn ld_bool_constraints(value: bool, s: StepState) -> Seq<Constraint> {
    seq![
        at(RowScope::All, "opcode in OPCODES", e_in_set(e_cell(s.opcode), e_opcodes(seq![ld_bool_opcode(value)]))),
        at(RowScope::All, "step_counter(0) == 1", e_sub(e_cell(s.step_counter), e_const(1))),
        at(RowScope::All, "stack_push_index(0) == sp(0) + 1", e_sub(e_cell(s.stack_push_index), e_add(e_cell(s.sp), e_const(1)))),
        at(RowScope::All, "stack_push_sub_index(0) == 0", e_cell(s.stack_push_sub_index)),
        if value {
            at(RowScope::All, "stack_push_value(0) == true", e_sub(s.stack_push_value.spec_expr(), e_const(1)))
        } else {
            at(RowScope::All, "stack_push_value(0) == false", s.stack_push_value.spec_expr())
        },
        at(RowScope::All, "stack_push_value_header(0) == false", e_cell(s.stack_push_value_header)),
    ]
}

impl<const TRUE: bool> LdBool<TRUE> {
    pub fn configure(cb: &mut ConstraintBuilder) -> (r: Self)
        requires
            old(cb).wf(),
            old(cb).scope == RowScope::All,
            old(cb).condition is None,
        ensures
            final(cb).wf(),
            final(cb).scope == RowScope::All,
            final(cb).condition is None,
            final(cb).curr == old(cb).curr,
            final(cb).next_column == old(cb).next_column,
            final(cb).lookups == old(cb).lookups,
            final(cb).constraints@ == old(cb).constraints@ + ld_bool_constraints(TRUE, old(cb).curr),
            final(cb).requirements@ == old(cb).requirements@ + seq![
                req(RowScope::All, None, Requirement::NoStackPop),
                req(RowScope::All, None, Requirement::NoLocalOp),
            ] + transition_records(RowScope::All, None, push_exit()),
    {
        let s = cb.curr;
        let op = if TRUE { Opcode::LdTrue } else { Opcode::LdFalse };
        let ops = [op];
        let set = opcode_exprs(&ops);
        cb.require_in_set("opcode in OPCODES", s.opcode.expr(), set);
        cb.require_equal("step_counter(0) == 1", s.step_counter.expr(), Expression::constant(1));
        cb.require_equal(
            "stack_push_index(0) == sp(0) + 1",
            s.stack_push_index.expr(),
            Expression::add(s.sp.expr(), Expression::constant(1)),
        );
        cb.require_zero("stack_push_sub_index(0) == 0", s.stack_push_sub_index.expr());
        if TRUE {
            cb.require_equal("stack_push_value(0) == true", s.stack_push_value.expr(), Expression::constant(1));
        } else {
            cb.require_zero("stack_push_value(0) == false", s.stack_push_value.expr());
        }
        cb.require_zero("stack_push_value_header(0) == false", s.stack_push_value_header.expr());
        cb.require_no_stack_pop();
        cb.require_no_local_op();
        cb.require_state_transitions(push_exit_vec());
        proof {
            assert(ops@ =~= seq![ld_bool_opcode(TRUE)]);
            assert(cb.constraints@ =~= old(cb).constraints@ + ld_bool_constraints(TRUE, s));
            assert(cb.requirements@ =~= old(cb).requirements@ + seq![
                req(RowScope::All, None, Requirement::NoStackPop),
                req(RowScope::All, None, Requirement::NoLocalOp),
            ] + transition_records(RowScope::All, None, push_exit()));
        }
        LdBool
    }
}

/// Where the constraints of `LdBool` hold, the pushed value (taken in the
/// field) is `1` for `LdTrue` and `0` for `LdFalse`.
pub proof fn lemma_ld_bool_pushes_constant(value: bool, s: StepState, w: Witness, row: int)
    requires
        eval(ld_bool_constraints(value, s)[4].poly, w, row) % (modulus() as int) == 0,
        0 <= eval(s.stack_push_value.spec_expr(), w, row) < modulus(),
    ensures
        eval(s.stack_push_value.spec_expr(), w, row) == if value { 1int } else { 0int },
{
    reveal_with_fuel(eval, 3);
    let v = eval(s.stack_push_value.spec_expr(), w, row);
    let c = ld_bool_constraints(value, s)[4];
    if value {
        assert(c.poly == e_sub(s.stack_push_value.spec_expr(), e_const(1)));
        crate::math_gadgets::add::lemma_small_int_mod_zero(v - 1, modulus() as int);
    } else {
        assert(c.poly == s.stack_push_value.spec_expr());
        crate::math_gadgets::add::lemma_small_int_mod_zero(v, modulus() as int);
    }
}

} // verus!
