use vstd::prelude::*;
use crate::builder::{ConstraintBuilder, RowScope, Requirement, Transition, at, e_boolean, req,
    transition_records};
use crate::expr::{Expression, Witness, e_add, e_and2, e_cell, e_const, e_mul, e_neg, e_not, e_or2, e_sub, eval};
use crate::field::modulus;
use crate::opcode::Opcode;
use crate::step::{StateField, StepState};

verus! {

/// The `And` and `Or` instructions on booleans: `aux0` is `1` for `And`.
#[derive(Debug)]
pub struct AndOr;

/// The value that `And` (`aux0 == 1`) or `Or` (`aux0 == 0`) pushes.
pub open spec fn e_and_or(aux0: Expression, a: Expression, b: Expression) -> Expression {
    e_add(e_mul(aux0, e_and2(a, b)), e_mul(e_not(aux0), e_or2(a, b)))
}

/// The transition out of a binary stage: same frame, module and function, one
/// stack slot freed, next instruction.
pub open spec fn binary_op_exit() -> Seq<(StateField, Transition)> {
    seq![
        (StateField::FrameIndex, Transition::Same),
        (StateField::ModuleIndex, Transition::Same),
        (StateField::FunctionIndex, Transition::Same),
        (StateField::Sp, Transition::Delta(e_neg(e_const(1)))),
        (StateField::Pc, Transition::Delta(e_const(1))),
    ]
}

pub fn binary_op_exit_vec() -> (r: Vec<(StateField, Transition)>)
    ensures
        r@ == binary_op_exit(),
{
    let v = vec![
        (StateField::FrameIndex, Transition::Same),
        (StateField::ModuleIndex, Transition::Same),
        (StateField::FunctionIndex, Transition::Same),
        (StateField::Sp, Transition::Delta(Expression::neg(Expression::constant(1)))),
        (StateField::Pc, Transition::Delta(Expression::constant(1))),
    ];
    proof {
        assert(v@ =~= binary_op_exit());
    }
    v
}

/// The constraints of `AndOr` on the current step `s` and the previous one `p`.
pub open spec fn and_or_constraints(s: StepState, p: StepState) -> Seq<crate::builder::Constraint> {
    seq![
        at(RowScope::First, "aux(0) == 0 | 1", e_boolean(e_cell(s.aux0))),
        at(RowScope::First, "opcode", e_sub(e_cell(s.opcode), e_add(
            e_mul(e_cell(s.aux0), e_const(Opcode::And.spec_index() as u128)),
            e_mul(e_not(e_cell(s.aux0)), e_const(Opcode::Or.spec_index() as u128))))),
        at(RowScope::First, "step_counter(0) == 2", e_sub(e_cell(s.step_counter), e_const(2))),
        at(RowScope::First, "stack_pop_index(0) == sp(0)", e_sub(e_cell(s.stack_pop_index), e_cell(s.sp))),
        at(RowScope::All, "stack_pop_sub_index(0) == 0", e_cell(s.stack_pop_sub_index)),
        at(RowScope::All, "stack_pop_value(0) == 0 | 1", e_boolean(s.stack_pop_value.spec_expr())),
        at(RowScope::All, "stack_pop_value_header(0) == false", e_cell(s.stack_pop_value_header)),
        at(RowScope::Last, "stack_pop_index(0) == sp(0) - 1", e_sub(e_cell(s.stack_pop_index), e_sub(e_cell(s.sp), e_const(1)))),
        at(RowScope::Last, "stack_push_index(0) == sp(0) - 1", e_sub(e_cell(s.stack_push_index), e_sub(e_cell(s.sp), e_const(1)))),
        at(RowScope::Last, "stack_push_sub_index(0) == 0", e_cell(s.stack_push_sub_index)),
        at(RowScope::Last, "stack_push_value(0) == expected", e_sub(s.stack_push_value.spec_expr(),
            e_and_or(e_cell(s.aux0), p.stack_pop_value.spec_expr(), s.stack_pop_value.spec_expr()))),
        at(RowScope::Last, "stack_push_value_header(0) == false", e_cell(s.stack_push_value_header)),
        at(RowScope::Last, "stack_push_version(0) == clk(0)", e_sub(e_cell(s.stack_push_version), e_cell(s.clk))),
    ]
}

impl AndOr {
    pub fn configure(cb: &mut ConstraintBuilder) -> (r: AndOr)
        requires
            old(cb).wf(),
            old(cb).scope == RowScope::All,
            old(cb).condition is None,
        ensures
            final(cb).wf(),
            final(cb).scope == RowScope::All,
            final(cb).condition is None,
            final(cb).curr == old(cb).curr,
            final(cb).next_column == old(cb).next_column,
            final(cb).lookups == old(cb).lookups,
            final(cb).constraints@ == old(cb).constraints@
                + and_or_constraints(old(cb).curr, old(cb).curr.spec_at_offset(-1)),
            final(cb).requirements@ == old(cb).requirements@ + seq![
                req(RowScope::First, None, Requirement::NoStackPush),
                req(RowScope::First, None, Requirement::StateTransition(StateField::Sp, Transition::Same)),
                req(RowScope::All, None, Requirement::NoLocalOp),
            ] + transition_records(RowScope::Last, None, binary_op_exit()),
    {
        let s = cb.curr;
        let p = cb.step_state_at_offset(-1);
        let prev = cb.scope_begin(RowScope::First);
        cb.require_boolean("aux(0) == 0 | 1", s.aux0.expr());
        cb.require_equal(
            "opcode",
            s.opcode.expr(),
            Expression::add(
                Expression::mul(s.aux0.expr(), Expression::constant(Opcode::And.index() as u128)),
                Expression::mul(Expression::not(s.aux0.expr()), Expression::constant(Opcode::Or.index() as u128)),
            ),
        );
        cb.require_equal("step_counter(0) == 2", s.step_counter.expr(), Expression::constant(2));
        cb.require_no_stack_push();
        cb.require_equal("stack_pop_index(0) == sp(0)", s.stack_pop_index.expr(), s.sp.expr());
        cb.require_state_transition(StateField::Sp, Transition::Same);
        cb.scope_end(prev);

        cb.require_zero("stack_pop_sub_index(0) == 0", s.stack_pop_sub_index.expr());
        cb.require_boolean("stack_pop_value(0) == 0 | 1", s.stack_pop_value.expr());
        cb.require_zero("stack_pop_value_header(0) == false", s.stack_pop_value_header.expr());
        cb.require_no_local_op();

        let prev = cb.scope_begin(RowScope::Last);
        cb.require_equal(
            "stack_pop_index(0) == sp(0) - 1",
            s.stack_pop_index.expr(),
            Expression::sub(s.sp.expr(), Expression::constant(1)),
        );
        cb.require_equal(
            "stack_push_index(0) == sp(0) - 1",
            s.stack_push_index.expr(),
            Expression::sub(s.sp.expr(), Expression::constant(1)),
        );
        cb.require_zero("stack_push_sub_index(0) == 0", s.stack_push_sub_index.expr());
        let and = Expression::and2(p.stack_pop_value.expr(), s.stack_pop_value.expr());
        let or = Expression::or2(p.stack_pop_value.expr(), s.stack_pop_value.expr());
        let expected = Expression::add(
            Expression::mul(s.aux0.expr(), and),
            Expression::mul(Expression::not(s.aux0.expr()), or),
        );
        cb.require_equal("stack_push_value(0) == expected", s.stack_push_value.expr(), expected);
        cb.require_zero("stack_push_value_header(0) == false", s.stack_push_value_header.expr());
        cb.require_equal("stack_push_version(0) == clk(0)", s.stack_push_version.expr(), s.clk.expr());
        cb.require_state_transitions(binary_op_exit_vec());
        cb.scope_end(prev);
        proof {
            assert(cb.constraints@ =~= old(cb).constraints@ + and_or_constraints(s, p));
            assert(cb.requirements@ =~= old(cb).requirements@ + seq![
                req(RowScope::First, None, Requirement::NoStackPush),
                req(RowScope::First, None, Requirement::StateTransition(StateField::Sp, Transition::Same)),
                req(RowScope::All, None, Requirement::NoLocalOp),
            ] + transition_records(RowScope::Last, None, binary_op_exit()));
        }
        AndOr
    }
}

/// At the last row of an `And`/`Or` stage whose constraints hold, with a
/// boolean `aux0` and boolean operands, the pushed value is the conjunction
/// (`aux0 == 1`) or the disjunction (`aux0 == 0`) of the two popped values.
pub proof fn lemma_and_or_sound(s: StepState, p: StepState, w: Witness, row: int)
    requires
        eval(e_sub(s.stack_push_value.spec_expr(),
            e_and_or(e_cell(s.aux0), p.stack_pop_value.spec_expr(), s.stack_pop_value.spec_expr())), w, row)
            % (modulus() as int) == 0,
        eval(e_cell(s.aux0), w, row) == 0 || eval(e_cell(s.aux0), w, row) == 1,
        eval(p.stack_pop_value.spec_expr(), w, row) == 0 || eval(p.stack_pop_value.spec_expr(), w, row) == 1,
        eval(s.stack_pop_value.spec_expr(), w, row) == 0 || eval(s.stack_pop_value.spec_expr(), w, row) == 1,
        0 <= eval(s.stack_push_value.spec_expr(), w, row) < modulus(),
    ensures
        ({
            let a = eval(p.stack_pop_value.spec_expr(), w, row) == 1;
            let b = eval(s.stack_pop_value.spec_expr(), w, row) == 1;
            let out = eval(s.stack_push_value.spec_expr(), w, row);
            out == if (if eval(e_cell(s.aux0), w, row) == 1 { a && b } else { a || b }) { 1int } else { 0int }
        }),
{
    reveal_with_fuel(eval, 4);
    let x = eval(e_cell(s.aux0), w, row);
    let a = eval(p.stack_pop_value.spec_expr(), w, row);
    let b = eval(s.stack_pop_value.spec_expr(), w, row);
    let ea = p.stack_pop_value.spec_expr();
    let eb = s.stack_pop_value.spec_expr();
    let ex = e_cell(s.aux0);
    assert(eval(e_and2(ea, eb), w, row) == 1 * a * b);
    assert(eval(e_not(ea), w, row) == 1 - a);
    assert(eval(e_not(eb), w, row) == 1 - b);
    assert(eval(e_and2(e_not(ea), e_not(eb)), w, row) == 1 * (1 - a) * (1 - b));
    assert(eval(e_or2(ea, eb), w, row) == 1 - (1 * (1 - a) * (1 - b)));
    assert(eval(e_not(ex), w, row) == 1 - x);
    let o = eval(s.stack_push_value.spec_expr(), w, row);
    let e = eval(e_and_or(e_cell(s.aux0), p.stack_pop_value.spec_expr(), s.stack_pop_value.spec_expr()), w, row);
    assert(e == x * (1 * a * b) + (1 - x) * (1 - (1 * (1 - a) * (1 - b))));
    let expected = if (if x == 1 { a == 1 && b == 1 } else { a == 1 || b == 1 }) { 1int } else { 0int };
    assert(e == expected) by (nonlinear_arith)
        requires
            e == x * (1 * a * b) + (1 - x) * (1 - (1 * (1 - a) * (1 - b))),
            x == 0 || x == 1, a == 0 || a == 1, b == 0 || b == 1,
            expected == if (if x == 1 { a == 1 && b == 1 } else { a == 1 || b == 1 }) { 1int } else { 0int };
    crate::math_gadgets::add::lemma_small_int_mod_zero(o - e, modulus() as int);
}

} // verus!
