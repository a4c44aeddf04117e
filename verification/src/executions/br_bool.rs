use vstd::prelude::*;
use crate::builder::{Constraint, ConstraintBuilder, RowScope, Transition, at, e_boolean, e_in_set,
    transition_records};
use crate::executions::common::{e_opcodes, minus_one, opcode_exprs};
use crate::expr::{Expression, Witness, e_add, e_cell, e_const, e_mul, e_not, e_sub, eval};
use crate::opcode::Opcode;
use crate::step::{StateField, StepState};

verus! {

/// `BrTrue` (`TRUE`) or `BrFalse`: pops a boolean and jumps to `aux0` when it
/// matches, else goes to the next instruction.
#[derive(Debug)]
pub struct BrBool<const TRUE: bool>;

pub open spec fn br_bool_opcode(value: bool) -> Opcode {
    if value { Opcode::BrTrue } else { Opcode::BrFalse }
}

pub open spec fn br_bool_constraints(value: bool, s: StepState) -> Seq<Constraint> {
    seq![
        at(RowScope::First, "opcode in OPCODES", e_in_set(e_cell(s.opcode), e_opcodes(seq![br_bool_opcode(value)]))),
        at(RowScope::First, "step_counter(0) == 1", e_sub(e_cell(s.step_counter), e_const(1))),
        at(RowScope::All, "stack_pop_index(0) == sp(0)", e_sub(e_cell(s.stack_pop_index), e_cell(s.sp))),
        at(RowScope::All, "stack_pop_sub_index(0) == 0", e_cell(s.stack_pop_sub_index)),
        at(RowScope::All, "boolean branch value", e_boolean(s.stack_pop_value.spec_expr())),
    ]
}

/// The pc of the next step: the target `aux0` when the popped condition
/// matches the instruction, else `pc + 1`.
pub open spec fn e_next_pc(value: bool, s: StepState) -> Expression {
    let c = s.stack_pop_value.spec_expr();
    let next = e_add(e_cell(s.pc), e_const(1));
    if value {
        e_add(e_mul(c, e_cell(s.aux0)), e_mul(e_not(c), next))
    } else {
        e_add(e_mul(e_not(c), e_cell(s.aux0)), e_mul(c, next))
    }
}

pub open spec fn br_bool_exit(value: bool, s: StepState) -> Seq<(StateField, Transition)> {
    seq![
        (StateField::FrameIndex, Transition::Same),
        (StateField::ModuleIndex, Transition::Same),
        (StateField::FunctionIndex, Transition::Same),
        (StateField::Sp, Transition::Delta(minus_one())),
        (StateField::Pc, Transition::To(e_next_pc(value, s))),
    ]
}

impl<const TRUE: bool> BrBool<TRUE> {
    pub fn configure(cb: &mut ConstraintBuilder) -> (r: Self)
        requires
            old(cb).wf(),
            old(cb).scope == RowScope::All,
            old(cb).condition is None,
        ensures
            final(cb).wf(),
            final(cb).scope == RowScope::All,
            final(cb).condition is None,
            final(cb).curr == old(cb).curr,
            final(cb).next_column == old(cb).next_column,
            final(cb).lookups == old(cb).lookups,
            final(cb).constraints@ == old(cb).constraints@ + br_bool_constraints(TRUE, old(cb).curr),
            final(cb).requirements@ == old(cb).requirements@
                + transition_records(RowScope::All, None, br_bool_exit(TRUE, old(cb).curr)),
    {
        let s = cb.curr;
        let prev = cb.scope_begin(RowScope::First);
        let ops = [if TRUE { Opcode::BrTrue } else { Opcode::BrFalse }];
        cb.require_in_set("opcode in OPCODES", s.opcode.expr(), opcode_exprs(&ops));
        cb.require_zero("step_counter(0) == 1", Expression::sub(s.step_counter.expr(), Expression::constant(1)));
        cb.scope_end(prev);
        cb.require_equal("stack_pop_index(0) == sp(0)", s.stack_pop_index.expr(), s.sp.expr());
        cb.require_zero("stack_pop_sub_index(0) == 0", s.stack_pop_sub_index.expr());
        let next_pc = s.aux0.expr();
        let branch_condition = s.stack_pop_value.expr();
        cb.require_boolean("boolean branch value", branch_condition.copy());
        let next = Expression::add(s.pc.expr(), Expression::constant(1));
        let next_step_pc = if TRUE {
            Expression::add(
                Expression::mul(branch_condition.copy(), next_pc),
                Expression::mul(Expression::not(branch_condition), next),
            )
        } else {
            Expression::add(
                Expression::mul(Expression::not(branch_condition.copy()), next_pc),
                Expression::mul(branch_condition, next),
            )
        };
        let exit = vec![
            (StateField::FrameIndex, Transition::Same),
            (StateField::ModuleIndex, Transition::Same),
            (StateField::FunctionIndex, Transition::Same),
            (StateField::Sp, Transition::Delta(Expression::neg(Expression::constant(1)))),
            (StateField::Pc, Transition::To(next_step_pc)),
        ];
        proof {
            assert(exit@ =~= br_bool_exit(TRUE, s));
        }
        cb.require_state_transitions(exit);
        proof {
            assert(ops@ =~= seq![br_bool_opcode(TRUE)]);
            assert(cb.constraints@ =~= old(cb).constraints@ + br_bool_constraints(TRUE, s));
        }
        BrBool
    }
}

/// With a boolean branch value, the next pc is the target exactly when the
/// value matches the instruction (`1` for `BrTrue`, `0` for `BrFalse`), and
/// `pc + 1` otherwise.
pub proof fn lemma_br_bool_target(value: bool, s: StepState, w: Witness, row: int)
    requires
        eval(s.stack_pop_value.spec_expr(), w, row) == 0 || eval(s.stack_pop_value.spec_expr(), w, row) == 1,
    ensures
        eval(e_next_pc(value, s), w, row) == if (eval(s.stack_pop_value.spec_expr(), w, row) == 1) == value {
            eval(e_cell(s.aux0), w, row)
        } else {
            eval(e_cell(s.pc), w, row) + 1
        },
{
    reveal_with_fuel(eval, 4);
    let c = eval(s.stack_pop_value.spec_expr(), w, row);
    let t = eval(e_cell(s.aux0), w, row);
    let n = eval(e_cell(s.pc), w, row) + 1;
    let ce = s.stack_pop_value.spec_expr();
    assert(eval(e_not(ce), w, row) == 1 - c);
    assert(eval(e_add(e_cell(s.pc), e_const(1)), w, row) == n);
    if value {
        assert(eval(e_next_pc(value, s), w, row) == c * t + (1 - c) * n);
    } else {
        assert(eval(e_next_pc(value, s), w, row) == (1 - c) * t + c * n);
    }
    assert(c * t + (1 - c) * n == if c == 1 { t } else { n }) by (nonlinear_arith)
        requires c == 0 || c == 1;
    assert((1 - c) * t + c * n == if c == 0 { t } else { n }) by (nonlinear_arith)
        requires c == 0 || c == 1;
}

} // verus!
