use vstd::prelude::*;
use crate::math_gadgets::is_zero::is_zero_checks;
use crate::sub_index::polys_at;
use crate::builder::{Constraint, ConstraintBuilder, RowScope, Requirement, Transition, at, byte_range_records,
    e_boolean, req, transition_records};
use crate::executions::common::minus_one;
use crate::expr::{Expression, Witness, e_add, e_cell, e_const, e_mul, e_sub, eval};
use crate::field::{lemma_modulus_bounds, modulus};
use crate::math_gadgets::add::lemma_small_int_mod_zero;
use crate::u256::two_128;
use crate::math_gadgets::comparison::ComparisonGadget;
use crate::math_gadgets::lt::e_lt_poly;
use crate::opcode::Opcode;
use crate::step::{StateField, StepState};

verus! {

/// `Le` (`LE`) or `Gt` on two integers: the first operand is popped at the
/// last row, the second (the top of the stack) at the row before. Each
/// 128-bit half is compared on its own, the high halves first.
#[derive(Debug)]
pub struct Le<const LE: bool> {
    pub comparison_hi: ComparisonGadget<16>,
    pub comparison_lo: ComparisonGadget<16>,
}

pub open spec fn le_opcode(le: bool) -> Opcode {
    if le { Opcode::Le } else { Opcode::Gt }
}

/// `hi_lt + hi_eq * (lo_lt + lo_eq)`: `1` when the first operand is at most
/// the second.
pub open spec fn e_le(hi: ComparisonGadget<16>, lo: ComparisonGadget<16>) -> Expression {
    e_add(e_cell(hi.lt.lt), e_mul(hi.eq.is_zero, e_add(e_cell(lo.lt.lt), lo.eq.is_zero)))
}

/// The constraints of `Le`/`Gt` on the current step `s` and the previous one
/// `p`, with the comparison gadgets of the high and low halves.
pub open spec fn le_constraints(
    le: bool,
    s: StepState,
    p: StepState,
    hi: ComparisonGadget<16>,
    lo: ComparisonGadget<16>,
) -> Seq<Constraint> {
    let out_lo = e_cell(s.stack_push_value.cells[0]);
    seq![
        at(RowScope::First, "opcode", e_sub(e_cell(s.opcode), e_const(le_opcode(le).spec_index() as u128))),
        at(RowScope::First, "step_counter(0) == 2", e_sub(e_cell(s.step_counter), e_const(2))),
        at(RowScope::All, "stack_pop_index(0) == sp(0)", e_sub(e_cell(s.stack_pop_index), e_cell(s.sp))),
        at(RowScope::All, "stack_pop_sub_index(0) == 0", e_cell(s.stack_pop_sub_index)),
        at(RowScope::All, "stack_pop_value_header(0) == false", e_cell(s.stack_pop_value_header)),
        at(RowScope::Last, "stack_push_index(0) == sp(0)", e_sub(e_cell(s.stack_push_index), e_cell(s.sp))),
        at(RowScope::Last, "stack_push_sub_index(0) == 0", e_cell(s.stack_push_sub_index)),
        at(RowScope::Last, "Constrain cell to be a bool", e_boolean(e_cell(hi.lt.lt))),
        at(RowScope::Last, "lhs - rhs == diff - (lt ⋅ range)", e_lt_poly(
            e_cell(s.stack_pop_value.cells[1]), e_cell(p.stack_pop_value.cells[1]), hi.lt.lt, hi.lt.diff@, 16)),
    ] + polys_at(is_zero_checks(hi.eq.value, hi.eq.inverse), RowScope::Last, None) + seq![
        at(RowScope::Last, "Constrain cell to be a bool", e_boolean(e_cell(lo.lt.lt))),
        at(RowScope::Last, "lhs - rhs == diff - (lt ⋅ range)", e_lt_poly(
            e_cell(s.stack_pop_value.cells[0]), e_cell(p.stack_pop_value.cells[0]), lo.lt.lt, lo.lt.diff@, 16)),
    ] + polys_at(is_zero_checks(lo.eq.value, lo.eq.inverse), RowScope::Last, None) + seq![
        at(RowScope::Last, "le == 0 | 1", e_boolean(e_le(hi, lo))),
        at(RowScope::Last, "out.hi() == 0", e_cell(s.stack_push_value.cells[1])),
        if le {
            at(RowScope::Last, "out.lo() == le", e_sub(out_lo, e_le(hi, lo)))
        } else {
            at(RowScope::Last, "out.lo() + le == 1", e_sub(e_add(out_lo, e_le(hi, lo)), e_const(1)))
        },
        at(RowScope::Last, "stack_push_value_header(0) == false", e_cell(s.stack_push_value_header)),
        at(RowScope::Last, "stack_push_version(0) == clk(0)", e_sub(e_cell(s.stack_push_version), e_cell(s.clk))),
    ]
}

/// The transition out of a comparison: one slot freed at the first row, then
/// the same stack pointer and the next instruction.
pub open spec fn le_exit() -> Seq<(StateField, Transition)> {
    seq![
        (StateField::FrameIndex, Transition::Same),
        (StateField::ModuleIndex, Transition::Same),
        (StateField::FunctionIndex, Transition::Same),
        (StateField::Sp, Transition::Same),
        (StateField::Pc, Transition::Delta(e_const(1))),
    ]
}

impl<const LE: bool> Le<LE> {
    pub fn configure(cb: &mut ConstraintBuilder) -> (r: Self)
        requires
            old(cb).wf(),
            old(cb).scope == RowScope::All,
            old(cb).condition is None,
            old(cb).has_room(36),
        ensures
            final(cb).wf(),
            final(cb).scope == RowScope::All,
            final(cb).condition is None,
            final(cb).curr == old(cb).curr,
            final(cb).next_column == old(cb).next_column + 36,
            final(cb).constraints@ == old(cb).constraints@ + le_constraints(
                LE, old(cb).curr, old(cb).curr.spec_at_offset(-1), r.comparison_hi, r.comparison_lo),
            final(cb).lookups@.len() == old(cb).lookups@.len() + 32,
            final(cb).lookups@.take(old(cb).lookups@.len() as int) == old(cb).lookups@,
            byte_range_records(final(cb).lookups@.skip(old(cb).lookups@.len() as int).take(16),
                r.comparison_hi.lt.diff@, RowScope::Last, None),
            byte_range_records(final(cb).lookups@.skip(old(cb).lookups@.len() as int + 16),
                r.comparison_lo.lt.diff@, RowScope::Last, None),
            final(cb).requirements@ == old(cb).requirements@ + seq![
                req(RowScope::First, None, Requirement::NoStackPush),
                req(RowScope::First, None, Requirement::StateTransition(StateField::Sp, Transition::Delta(minus_one()))),
                req(RowScope::All, None, Requirement::NoLocalOp),
            ] + transition_records(RowScope::Last, None, le_exit()),
    {
        let s = cb.curr;
        let p = cb.step_state_at_offset(-1);
        let op = if LE { Opcode::Le } else { Opcode::Gt };
        let prev = cb.scope_begin(RowScope::First);
        cb.require_equal("opcode", s.opcode.expr(), Expression::constant(op.index() as u128));
        cb.require_equal("step_counter(0) == 2", s.step_counter.expr(), Expression::constant(2));
        cb.require_no_stack_push();
        cb.require_state_transition(StateField::Sp, Transition::Delta(Expression::neg(Expression::constant(1))));
        cb.scope_end(prev);

        cb.require_equal("stack_pop_index(0) == sp(0)", s.stack_pop_index.expr(), s.sp.expr());
        cb.require_zero("stack_pop_sub_index(0) == 0", s.stack_pop_sub_index.expr());
        cb.require_zero("stack_pop_value_header(0) == false", s.stack_pop_value_header.expr());
        cb.require_no_local_op();

        let prev = cb.scope_begin(RowScope::Last);
        cb.require_equal("stack_push_index(0) == sp(0)", s.stack_push_index.expr(), s.sp.expr());
        cb.require_zero("stack_push_sub_index(0) == 0", s.stack_push_sub_index.expr());
        let lhs = s.stack_pop_value.as_integer();
        let rhs = p.stack_pop_value.as_integer();
        let ghost mid = cb.lookups@;
        let comp_hi = ComparisonGadget::<16>::construct(cb, lhs.hi(), rhs.hi());
        let ghost mid2 = cb.lookups@;
        let comp_lo = ComparisonGadget::<16>::construct(cb, lhs.lo(), rhs.lo());
        let (hi_lt, hi_eq) = comp_hi.expr();
        let (lo_lt, lo_eq) = comp_lo.expr();
        let le = Expression::add(hi_lt, Expression::mul(hi_eq, Expression::add(lo_lt, lo_eq)));
        cb.require_boolean("le == 0 | 1", le.copy());
        let out = s.stack_push_value.as_integer();
        cb.require_zero("out.hi() == 0", out.hi());
        if LE {
            cb.require_equal("out.lo() == le", out.lo(), le);
        } else {
            cb.require_equal("out.lo() + le == 1", Expression::add(out.lo(), le), Expression::constant(1));
        }
        cb.require_zero("stack_push_value_header(0) == false", s.stack_push_value_header.expr());
        cb.require_equal("stack_push_version(0) == clk(0)", s.stack_push_version.expr(), s.clk.expr());
        let exit = vec![
            (StateField::FrameIndex, Transition::Same),
            (StateField::ModuleIndex, Transition::Same),
            (StateField::FunctionIndex, Transition::Same),
            (StateField::Sp, Transition::Same),
            (StateField::Pc, Transition::Delta(Expression::constant(1))),
        ];
        proof {
            assert(exit@ =~= le_exit());
        }
        cb.require_state_transitions(exit);
        cb.scope_end(prev);
        proof {
            let n0 = old(cb).lookups@.len() as int;
            assert(mid == old(cb).lookups@);
            assert(cb.lookups@.take(n0 + 16) =~= mid2);
            assert(cb.lookups@.take(n0) =~= old(cb).lookups@) by {
                assert(mid2.take(n0) =~= cb.lookups@.take(n0));
            }
            assert(cb.lookups@.skip(n0).take(16) =~= mid2.skip(n0));
            assert(cb.lookups@.skip(n0 + 16) =~= cb.lookups@.skip(mid2.len() as int));
            assert(cb.constraints@ =~= old(cb).constraints@ + le_constraints(LE, s, p, comp_hi, comp_lo));
            assert(cb.requirements@ =~= old(cb).requirements@ + seq![
                req(RowScope::First, None, Requirement::NoStackPush),
                req(RowScope::First, None, Requirement::StateTransition(StateField::Sp, Transition::Delta(minus_one()))),
                req(RowScope::All, None, Requirement::NoLocalOp),
            ] + transition_records(RowScope::Last, None, le_exit()));
        }
        Le { comparison_hi: comp_hi, comparison_lo: comp_lo }
    }
}

/// The value that a comparison pushes: when the comparison gadgets of the two
/// halves report `lt` and `eq` truthfully and the output constraint holds, the
/// pushed low limb is `1` exactly when the first operand `a` is at most
/// (`Le`) or greater than (`Gt`) the second operand `b`, each taken as
/// `lo + hi * 2^128`.
pub proof fn lemma_le_result(le: bool, s: StepState, p: StepState, hi: ComparisonGadget<16>, lo: ComparisonGadget<16>,
    w: Witness, row: int)
    requires
        ({
            let a_lo = eval(e_cell(s.stack_pop_value.cells[0]), w, row);
            let a_hi = eval(e_cell(s.stack_pop_value.cells[1]), w, row);
            let b_lo = eval(e_cell(p.stack_pop_value.cells[0]), w, row);
            let b_hi = eval(e_cell(p.stack_pop_value.cells[1]), w, row);
            &&& 0 <= a_lo < two_128() && 0 <= b_lo < two_128()
            &&& eval(e_cell(hi.lt.lt), w, row) == (if a_hi < b_hi { 1int } else { 0int })
            &&& eval(hi.eq.is_zero, w, row) == (if a_hi == b_hi { 1int } else { 0int })
            &&& eval(e_cell(lo.lt.lt), w, row) == (if a_lo < b_lo { 1int } else { 0int })
            &&& eval(lo.eq.is_zero, w, row) == (if a_lo == b_lo { 1int } else { 0int })
        }),
        eval(le_constraints(le, s, p, hi, lo)[17].poly, w, row) % (modulus() as int) == 0,
        0 <= eval(e_cell(s.stack_push_value.cells[0]), w, row) < modulus(),
    ensures
        ({
            let a = eval(e_cell(s.stack_pop_value.cells[0]), w, row)
                + eval(e_cell(s.stack_pop_value.cells[1]), w, row) * two_128();
            let b = eval(e_cell(p.stack_pop_value.cells[0]), w, row)
                + eval(e_cell(p.stack_pop_value.cells[1]), w, row) * two_128();
            eval(e_cell(s.stack_push_value.cells[0]), w, row) == if (if le { a <= b } else { a > b }) { 1int } else { 0int }
        }),
{
    reveal_with_fuel(eval, 4);
    let a_lo = eval(e_cell(s.stack_pop_value.cells[0]), w, row);
    let a_hi = eval(e_cell(s.stack_pop_value.cells[1]), w, row);
    let b_lo = eval(e_cell(p.stack_pop_value.cells[0]), w, row);
    let b_hi = eval(e_cell(p.stack_pop_value.cells[1]), w, row);
    let a = a_lo + a_hi * two_128();
    let b = b_lo + b_hi * two_128();
    let v = eval(e_le(hi, lo), w, row);
    let hl = eval(e_cell(hi.lt.lt), w, row);
    let he = eval(hi.eq.is_zero, w, row);
    let ll = eval(e_cell(lo.lt.lt), w, row);
    let lq = eval(lo.eq.is_zero, w, row);
    assert(v == hl + he * (ll + lq));
    let t = two_128() as int;
    assert(v == if a <= b { 1int } else { 0int }) by (nonlinear_arith)
        requires
            v == hl + he * (ll + lq),
            hl == (if a_hi < b_hi { 1int } else { 0int }),
            he == (if a_hi == b_hi { 1int } else { 0int }),
            ll == (if a_lo < b_lo { 1int } else { 0int }),
            lq == (if a_lo == b_lo { 1int } else { 0int }),
            0 <= a_lo < t, 0 <= b_lo < t,
            a == a_lo + a_hi * t, b == b_lo + b_hi * t,
    {
        if a_hi < b_hi {
            assert(a_hi * t + t <= b_hi * t);
        } else if a_hi > b_hi {
            assert(b_hi * t + t <= a_hi * t);
        }
    }
    let o = eval(e_cell(s.stack_push_value.cells[0]), w, row);
    lemma_modulus_bounds();
    if le {
        assert(eval(le_constraints(le, s, p, hi, lo)[17].poly, w, row) == o - v);
        lemma_small_int_mod_zero(o - v, modulus() as int);
    } else {
        assert(eval(le_constraints(le, s, p, hi, lo)[17].poly, w, row) == o + v - 1);
        lemma_small_int_mod_zero(o + v - 1, modulus() as int);
    }
}

} // verus!
