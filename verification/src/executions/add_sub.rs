use vstd::prelude::*;
use crate::executions::add_sub_sound::lemma_add_sub_overflow_bound;
use crate::builder::{Constraint, ConstraintBuilder, RowScope, Requirement, Transition, at, byte_range_records,
    e_boolean, e_in_set, req, transition_records};
use crate::executions::and_or::{binary_op_exit, binary_op_exit_vec};
use crate::executions::common::{e_opcodes, opcode_exprs};
use crate::expr::{Cell, Expression, Witness, e_add, e_cell, e_const, e_mul, e_not, e_sub, eval};
use crate::math_gadgets::add::{AddGadget, bit_set, e_add_hi, e_add_lo, lemma_add_sound, lemma_small_int_mod_zero};
use crate::u256::{lemma_two_128, two_128, two_256};
use vstd::arithmetic::div_mod::{lemma_fundamental_div_mod, lemma_mod_multiples_vanish, lemma_small_mod};
use vstd::arithmetic::power2::{lemma_pow2_strictly_increases, pow2};
use crate::math_gadgets::is_zero::{IsZeroGadget, e_is_zero, is_zero_checks, zero_test};
use crate::sub_index::polys_at;
use crate::math_gadgets::range_check::{LimbRangeCheck, e_bytes, e_in_range, first_bytes, inverse_of, range_diff,
    lemma_overflow_flag, lemma_unit_factor,
    range_inverse};
use crate::bytes::digit;
use crate::field::{Fe, fe_lt, fe_sub, field_diff, lemma_modulus_bounds, modulus};
use crate::opcode::Opcode;
use crate::step::{Integer, StateField, StepState};

verus! {

/// `Add` and `Sub` on integers of `aux0` bytes: the first operand is popped at
/// the last row, the second (the top of the stack) at the first. The result
/// wraps modulo `2^256`; `overflow` is set when it does not fit the width.
#[derive(Debug)]
pub struct AddSub {
    pub range_check_lo: LimbRangeCheck,
    pub range_check_hi: LimbRangeCheck,
    pub add: AddGadget,
    pub is_add: IsZeroGadget,
    pub is_u8: IsZeroGadget,
    pub is_u16: IsZeroGadget,
    pub is_u32: IsZeroGadget,
    pub is_u64: IsZeroGadget,
    pub is_u128: IsZeroGadget,
    pub is_u256: IsZeroGadget,
    pub overflow: Cell,
}

/// The cell in column `c` at the current row.
pub open spec fn cell_at(c: int) -> Cell {
    Cell { column: c as usize, rotation: 0 }
}

/// `n` cells in columns `c ..`.
pub open spec fn cells_from(c: int, n: nat) -> Seq<Cell> {
    Seq::new(n, |i: int| cell_at(c + i))
}

/// `1` when `aux0` is the width `n` (in bytes).
pub open spec fn e_is_width(s: StepState, n: nat, inverse: Cell) -> Expression {
    e_is_zero(e_sub(e_cell(s.aux0), e_const(n as u128)), inverse)
}

/// `1` for `Add`, `0` for `Sub`.
pub open spec fn e_is_add(s: StepState, inverse: Cell) -> Expression {
    e_is_zero(e_sub(e_cell(s.opcode), e_const(Opcode::Add.spec_index() as u128)), inverse)
}

/// The constraints of `AddSub` on the current step `s` and the previous one `p`,
/// with its cells allocated from column `c`: the bytes of the low and the high
/// limb of the result (`c`, `c + 16`), the carries (`c + 32`, `c + 33`), the
/// inverses of the opcode and width tests (`c + 34 ..= c + 40`), `overflow`
/// (`c + 41`) and the inverses of the range tests (`c + 42 ..= c + 48`).
pub open spec fn add_sub_constraints(s: StepState, p: StepState, c: int) -> Seq<Constraint> {
    add_sub_core_constraints(s, p, c) + add_sub_flag_checks(s, c)
}

/// The constraints of `AddSub` before the checks of its tests.
pub open spec fn add_sub_core_constraints(s: StepState, p: StepState, c: int) -> Seq<Constraint> {
    let lo_b = cells_from(c, 16);
    let hi_b = cells_from(c + 16, 16);
    let carry_lo = cell_at(c + 32);
    let carry_hi = cell_at(c + 33);
    let is_add = e_is_add(s, cell_at(c + 34));
    let is_u8 = e_is_width(s, 1, cell_at(c + 35));
    let is_u16 = e_is_width(s, 2, cell_at(c + 36));
    let is_u32 = e_is_width(s, 4, cell_at(c + 37));
    let is_u64 = e_is_width(s, 8, cell_at(c + 38));
    let is_u128 = e_is_width(s, 16, cell_at(c + 39));
    let is_u256 = e_is_width(s, 32, cell_at(c + 40));
    let overflow = e_cell(cell_at(c + 41));
    let lhs_lo = e_cell(s.stack_pop_value.cells[0]);
    let lhs_hi = e_cell(s.stack_pop_value.cells[1]);
    let rhs_lo = e_cell(p.stack_pop_value.cells[0]);
    let rhs_hi = e_cell(p.stack_pop_value.cells[1]);
    let out_lo = e_cell(s.stack_push_value.cells[0]);
    let out_hi = e_cell(s.stack_push_value.cells[1]);
    let well_lo = e_sub(out_lo, e_bytes(lo_b));
    let well_hi = e_sub(out_hi, e_bytes(hi_b));
    let low = |n: nat| e_sub(out_lo, e_bytes(lo_b.take(n as int)));
    let not_in = |n: nat, k: int| e_sub(overflow, e_sub(e_const(1), e_in_range(out_lo, lo_b, n, cell_at(c + k))));
    seq![
        at(RowScope::First, "opcode in OPCODES", e_in_set(e_cell(s.opcode), e_opcodes(seq![Opcode::Add, Opcode::Sub]))),
        at(RowScope::First, "step_counter(0) == 2", e_sub(e_cell(s.step_counter), e_const(2))),
        at(RowScope::First, "stack_pop_index(0) == sp(0)", e_sub(e_cell(s.stack_pop_index), e_cell(s.sp))),
        at(RowScope::All, "stack_pop_sub_index(0) == 0", e_cell(s.stack_pop_sub_index)),
        at(RowScope::All, "stack_pop_value_header(0) == false", e_cell(s.stack_pop_value_header)),
        at(RowScope::Last, "carry_lo == 0 | 1", e_in_set(e_cell(carry_lo), bit_set())),
        at(RowScope::Last, "carry_hi == 0 | 1", e_in_set(e_cell(carry_hi), bit_set())),
        at(RowScope::Last, "Constrain cell to be a bool", e_boolean(overflow)),
        at(RowScope::Last, "stack_pop_index(0) == sp(0) - 1", e_sub(e_cell(s.stack_pop_index), e_sub(e_cell(s.sp), e_const(1)))),
        at(RowScope::Last, "stack_push_index(0) == sp(0) - 1", e_sub(e_cell(s.stack_push_index), e_sub(e_cell(s.sp), e_const(1)))),
        at(RowScope::Last, "stack_push_sub_index(0) == 0", e_cell(s.stack_push_sub_index)),
        at(RowScope::Last, "stack_push_value_header(0) == false", e_cell(s.stack_push_value_header)),
        at(RowScope::Last, "stack_push_version(0) == clk(0)", e_sub(e_cell(s.stack_push_version), e_cell(s.clk))),
        at(RowScope::Last, "lhs_lo + rhs_lo == out_lo + carry_lo * 2^128", e_mul(is_add, e_add_lo(lhs_lo, rhs_lo, out_lo, carry_lo))),
        at(RowScope::Last, "lhs_hi + rhs_hi + carry_lo == out_hi + carry_hi * 2^128",
            e_mul(is_add, e_add_hi(lhs_hi, rhs_hi, out_hi, carry_lo, carry_hi))),
        at(RowScope::Last, "out_lo + rhs_lo == lhs_lo + carry_lo * 2^128",
            e_mul(e_not(is_add), e_add_lo(out_lo, rhs_lo, lhs_lo, carry_lo))),
        at(RowScope::Last, "out_hi + rhs_hi + carry_lo == lhs_hi + carry_hi * 2^128",
            e_mul(e_not(is_add), e_add_hi(out_hi, rhs_hi, lhs_hi, carry_lo, carry_hi))),
    ] + add_sub_widths(s, c)
}

/// The constraints of the width tests of `AddSub` on the result.
pub open spec fn add_sub_widths(s: StepState, c: int) -> Seq<Constraint> {
    let lo_b = cells_from(c, 16);
    let hi_b = cells_from(c + 16, 16);
    let carry_hi = cell_at(c + 33);
    let is_u8 = e_is_width(s, 1, cell_at(c + 35));
    let is_u16 = e_is_width(s, 2, cell_at(c + 36));
    let is_u32 = e_is_width(s, 4, cell_at(c + 37));
    let is_u64 = e_is_width(s, 8, cell_at(c + 38));
    let is_u128 = e_is_width(s, 16, cell_at(c + 39));
    let is_u256 = e_is_width(s, 32, cell_at(c + 40));
    let overflow = e_cell(cell_at(c + 41));
    let out_lo = e_cell(s.stack_push_value.cells[0]);
    let out_hi = e_cell(s.stack_push_value.cells[1]);
    let well_lo = e_sub(out_lo, e_bytes(lo_b));
    let well_hi = e_sub(out_hi, e_bytes(hi_b));
    let low = |n: nat| e_sub(out_lo, e_bytes(lo_b.take(n as int)));
    let not_in = |n: nat, k: int| e_sub(overflow, e_sub(e_const(1), e_in_range(out_lo, lo_b, n, cell_at(c + k))));
    seq![
        at(RowScope::Last, "out_hi == 0", e_mul(e_add(e_add(e_add(is_u8, is_u16), is_u32), is_u64), out_hi)),
        at(RowScope::Last, "the input value is well assigned", e_mul(is_u8, well_lo)),
    ] + polys_at(is_zero_checks(low(1), cell_at(c + 42)), RowScope::Last, Some(is_u8)) + seq![
        at(RowScope::Last, "overflow == !in_range(out_lo)", e_mul(is_u8, not_in(1, 42))),
        at(RowScope::Last, "the input value is well assigned", e_mul(is_u16, well_lo)),
    ] + polys_at(is_zero_checks(low(2), cell_at(c + 43)), RowScope::Last, Some(is_u16)) + seq![
        at(RowScope::Last, "overflow == !in_range(out_lo)", e_mul(is_u16, not_in(2, 43))),
        at(RowScope::Last, "the input value is well assigned", e_mul(is_u32, well_lo)),
    ] + polys_at(is_zero_checks(low(4), cell_at(c + 44)), RowScope::Last, Some(is_u32)) + seq![
        at(RowScope::Last, "overflow == !in_range(out_lo)", e_mul(is_u32, not_in(4, 44))),
        at(RowScope::Last, "the input value is well assigned", e_mul(is_u64, well_lo)),
    ] + polys_at(is_zero_checks(low(8), cell_at(c + 45)), RowScope::Last, Some(is_u64)) + seq![
        at(RowScope::Last, "overflow == !in_range(out_lo)", e_mul(is_u64, not_in(8, 45))),
        at(RowScope::Last, "the input value is well assigned", e_mul(is_u128, well_lo)),
    ] + polys_at(is_zero_checks(low(16), cell_at(c + 46)), RowScope::Last, Some(is_u128)) + seq![
        at(RowScope::Last, "out_lo < 2^128", e_mul(is_u128, e_sub(e_in_range(out_lo, lo_b, 16, cell_at(c + 46)), e_const(1)))),
        at(RowScope::Last, "out_hi == 0 | 1", e_mul(is_u128, e_in_set(out_hi, bit_set()))),
        at(RowScope::Last, "overflow == out_hi", e_mul(is_u128, e_sub(overflow, out_hi))),
        at(RowScope::Last, "the input value is well assigned", e_mul(is_u256, well_lo)),
    ] + polys_at(is_zero_checks(low(16), cell_at(c + 47)), RowScope::Last, Some(is_u256)) + seq![
        at(RowScope::Last, "the input value is well assigned", e_mul(is_u256, well_hi)),
    ] + polys_at(is_zero_checks(e_sub(out_hi, e_bytes(hi_b.take(16))), cell_at(c + 48)), RowScope::Last, Some(is_u256)) + seq![
        at(RowScope::Last, "out_lo < 2^128", e_mul(is_u256, e_sub(e_in_range(out_lo, lo_b, 16, cell_at(c + 47)), e_const(1)))),
        at(RowScope::Last, "out_hi < 2^128", e_mul(is_u256, e_sub(e_in_range(out_hi, hi_b, 16, cell_at(c + 48)), e_const(1)))),
        at(RowScope::Last, "overflow == add_gadget.overflow()", e_mul(is_u256, e_sub(overflow, e_cell(carry_hi)))),
    ]
}

/// The checks of the opcode test and of the width tests, at the last row.
pub open spec fn add_sub_flag_checks(s: StepState, c: int) -> Seq<Constraint> {
    polys_at(is_zero_checks(e_sub(e_cell(s.opcode), e_const(Opcode::Add.spec_index() as u128)), cell_at(c + 34)),
        RowScope::Last, None)
    + polys_at(is_zero_checks(e_sub(e_cell(s.aux0), e_const(1)), cell_at(c + 35)), RowScope::Last, None)
    + polys_at(is_zero_checks(e_sub(e_cell(s.aux0), e_const(2)), cell_at(c + 36)), RowScope::Last, None)
    + polys_at(is_zero_checks(e_sub(e_cell(s.aux0), e_const(4)), cell_at(c + 37)), RowScope::Last, None)
    + polys_at(is_zero_checks(e_sub(e_cell(s.aux0), e_const(8)), cell_at(c + 38)), RowScope::Last, None)
    + polys_at(is_zero_checks(e_sub(e_cell(s.aux0), e_const(16)), cell_at(c + 39)), RowScope::Last, None)
    + polys_at(is_zero_checks(e_sub(e_cell(s.aux0), e_const(32)), cell_at(c + 40)), RowScope::Last, None)
}

impl AddSub {
    #[verifier::rlimit(100)]
    pub fn configure(cb: &mut ConstraintBuilder) -> (r: AddSub)
        requires
            old(cb).wf(),
            old(cb).scope == RowScope::All,
            old(cb).condition is None,
            old(cb).has_room(49),
        ensures
            final(cb).wf(),
            final(cb).scope == RowScope::All,
            final(cb).condition is None,
            final(cb).curr == old(cb).curr,
            final(cb).next_column == old(cb).next_column + 49,
            r.range_check_lo.bytes@ == cells_from(old(cb).next_column as int, 16),
            r.range_check_hi.bytes@ == cells_from(old(cb).next_column + 16, 16),
            r.add.carry_lo == cell_at(old(cb).next_column + 32),
            r.add.carry_hi == cell_at(old(cb).next_column + 33),
            r.is_add.is_zero == e_is_add(old(cb).curr, cell_at(old(cb).next_column + 34)),
            r.is_u8.is_zero == e_is_width(old(cb).curr, 1, cell_at(old(cb).next_column + 35)),
            r.is_u16.is_zero == e_is_width(old(cb).curr, 2, cell_at(old(cb).next_column + 36)),
            r.is_u32.is_zero == e_is_width(old(cb).curr, 4, cell_at(old(cb).next_column + 37)),
            r.is_u64.is_zero == e_is_width(old(cb).curr, 8, cell_at(old(cb).next_column + 38)),
            r.is_u128.is_zero == e_is_width(old(cb).curr, 16, cell_at(old(cb).next_column + 39)),
            r.is_u256.is_zero == e_is_width(old(cb).curr, 32, cell_at(old(cb).next_column + 40)),
            r.overflow == cell_at(old(cb).next_column + 41),
            final(cb).constraints@ == old(cb).constraints@ + add_sub_constraints(old(cb).curr,
                old(cb).curr.spec_at_offset(-1), old(cb).next_column as int),
            final(cb).lookups@.len() == old(cb).lookups@.len() + 32,
            final(cb).lookups@.take(old(cb).lookups@.len() as int) == old(cb).lookups@,
            byte_range_records(final(cb).lookups@.skip(old(cb).lookups@.len() as int).take(16),
                r.range_check_lo.bytes@, RowScope::Last, None),
            byte_range_records(final(cb).lookups@.skip(old(cb).lookups@.len() as int + 16),
                r.range_check_hi.bytes@, RowScope::Last, None),
            final(cb).requirements@ == old(cb).requirements@ + seq![
                req(RowScope::First, None, Requirement::NoStackPush),
                req(RowScope::First, None, Requirement::StateTransition(StateField::Sp, Transition::Same)),
                req(RowScope::All, None, Requirement::NoLocalOp),
            ] + transition_records(RowScope::Last, None, binary_op_exit()),
    {
        let ghost c = cb.next_column as int;
        let s = cb.curr;
        let p = cb.step_state_at_offset(-1);
        let prev = cb.scope_begin(RowScope::First);
        let ops = [Opcode::Add, Opcode::Sub];
        cb.require_in_set("opcode in OPCODES", s.opcode.expr(), opcode_exprs(&ops));
        cb.require_equal("step_counter(0) == 2", s.step_counter.expr(), Expression::constant(2));
        cb.require_no_stack_push();
        cb.require_equal("stack_pop_index(0) == sp(0)", s.stack_pop_index.expr(), s.sp.expr());
        cb.require_state_transition(StateField::Sp, Transition::Same);
        cb.scope_end(prev);
        cb.require_zero("stack_pop_sub_index(0) == 0", s.stack_pop_sub_index.expr());
        cb.require_zero("stack_pop_value_header(0) == false", s.stack_pop_value_header.expr());
        cb.require_no_local_op();

        let prev = cb.scope_begin(RowScope::Last);
        let ghost l0 = cb.lookups@;
        let range_check_lo = LimbRangeCheck::construct(cb);
        let ghost l1 = cb.lookups@;
        let range_check_hi = LimbRangeCheck::construct(cb);
        let ghost l2 = cb.lookups@;
        let add = AddGadget::construct(cb);
        let is_add = IsZeroGadget::construct(cb,
            Expression::sub(s.opcode.expr(), Expression::constant(Opcode::Add.index() as u128)));
        let is_u8 = IsZeroGadget::construct(cb, Expression::sub(s.aux0.expr(), Expression::constant(1)));
        let is_u16 = IsZeroGadget::construct(cb, Expression::sub(s.aux0.expr(), Expression::constant(2)));
        let is_u32 = IsZeroGadget::construct(cb, Expression::sub(s.aux0.expr(), Expression::constant(4)));
        let is_u64 = IsZeroGadget::construct(cb, Expression::sub(s.aux0.expr(), Expression::constant(8)));
        let is_u128 = IsZeroGadget::construct(cb, Expression::sub(s.aux0.expr(), Expression::constant(16)));
        let is_u256 = IsZeroGadget::construct(cb, Expression::sub(s.aux0.expr(), Expression::constant(32)));
        let overflow = cb.query_bool();

        cb.require_equal(
            "stack_pop_index(0) == sp(0) - 1",
            s.stack_pop_index.expr(),
            Expression::sub(s.sp.expr(), Expression::constant(1)),
        );
        cb.require_equal(
            "stack_push_index(0) == sp(0) - 1",
            s.stack_push_index.expr(),
            Expression::sub(s.sp.expr(), Expression::constant(1)),
        );
        cb.require_zero("stack_push_sub_index(0) == 0", s.stack_push_sub_index.expr());
        cb.require_zero("stack_push_value_header(0) == false", s.stack_push_value_header.expr());
        cb.require_equal("stack_push_version(0) == clk(0)", s.stack_push_version.expr(), s.clk.expr());

        let ghost ch = cb.constraints@;
        let lhs = s.stack_pop_value.as_integer();
        let rhs = p.stack_pop_value.as_integer();
        let out = s.stack_push_value.as_integer();
        add.expr(cb, lhs, rhs, Integer::new(out.lo(), out.hi()), is_add.expr());

        let ghost cm = cb.constraints@;
        cb.require_zero(
            "out_hi == 0",
            Expression::mul(
                Expression::add(Expression::add(Expression::add(is_u8.expr(), is_u16.expr()), is_u32.expr()), is_u64.expr()),
                out.hi(),
            ),
        );
        let c8 = cb.condition_begin(is_u8.expr());
        let in_range = range_check_lo.in_range(cb, out.lo(), 1);
        cb.require_equal("overflow == !in_range(out_lo)", overflow.expr(), Expression::sub(Expression::constant(1), in_range));
        cb.condition_end(c8);
        let c16 = cb.condition_begin(is_u16.expr());
        let in_range = range_check_lo.in_range(cb, out.lo(), 2);
        cb.require_equal("overflow == !in_range(out_lo)", overflow.expr(), Expression::sub(Expression::constant(1), in_range));
        cb.condition_end(c16);
        let c32 = cb.condition_begin(is_u32.expr());
        let in_range = range_check_lo.in_range(cb, out.lo(), 4);
        cb.require_equal("overflow == !in_range(out_lo)", overflow.expr(), Expression::sub(Expression::constant(1), in_range));
        cb.condition_end(c32);
        let c64 = cb.condition_begin(is_u64.expr());
        let in_range = range_check_lo.in_range(cb, out.lo(), 8);
        cb.require_equal("overflow == !in_range(out_lo)", overflow.expr(), Expression::sub(Expression::constant(1), in_range));
        cb.condition_end(c64);

        let c128 = cb.condition_begin(is_u128.expr());
        let in_range = range_check_lo.in_range(cb, out.lo(), 16);
        cb.require_true("out_lo < 2^128", in_range);
        let bits = vec![Expression::constant(0), Expression::constant(1)];
        proof {
            assert(bits@ =~= bit_set());
        }
        cb.require_in_set("out_hi == 0 | 1", out.hi(), bits);
        cb.require_equal("overflow == out_hi", overflow.expr(), out.hi());
        cb.condition_end(c128);

        let c256 = cb.condition_begin(is_u256.expr());
        let in_range_lo = range_check_lo.in_range(cb, out.lo(), 16);
        let in_range_hi = range_check_hi.in_range(cb, out.hi(), 16);
        cb.require_true("out_lo < 2^128", in_range_lo);
        cb.require_true("out_hi < 2^128", in_range_hi);
        cb.require_equal("overflow == add_gadget.overflow()", overflow.expr(), add.overflow());
        cb.condition_end(c256);

        let ghost cf = cb.constraints@;
        is_add.constrain(cb);
        is_u8.constrain(cb);
        is_u16.constrain(cb);
        is_u32.constrain(cb);
        is_u64.constrain(cb);
        is_u128.constrain(cb);
        is_u256.constrain(cb);
        cb.require_state_transitions(binary_op_exit_vec());
        cb.scope_end(prev);
        proof {
            let k = l0.len() as int;
            assert(range_check_lo.bytes@ =~= cells_from(c, 16));
            assert(range_check_hi.bytes@ =~= cells_from(c + 16, 16));
            assert(ops@ =~= seq![Opcode::Add, Opcode::Sub]);
            assert(cb.lookups@ == l2);
            assert(l2.take(k + 16) =~= l1);
            assert(cb.lookups@.take(k) =~= old(cb).lookups@) by {
                assert(l1.take(k) =~= l0);
                assert(l2.take(k) =~= l1.take(k));
            }
            assert(cb.lookups@.skip(k).take(16) =~= l1.skip(k));
            assert(cb.lookups@.skip(k + 16) =~= l2.skip(l1.len() as int));
            assert(cf =~= cm + add_sub_widths(s, c));
            assert(cf =~= old(cb).constraints@ + add_sub_core_constraints(s, p, c));
            assert(cb.constraints@ =~= cf + add_sub_flag_checks(s, c));
            assert(cb.constraints@ =~= old(cb).constraints@ + add_sub_constraints(s, p, c));
            assert(cb.requirements@ =~= old(cb).requirements@ + seq![
                req(RowScope::First, None, Requirement::NoStackPush),
                req(RowScope::First, None, Requirement::StateTransition(StateField::Sp, Transition::Same)),
                req(RowScope::All, None, Requirement::NoLocalOp),
            ] + transition_records(RowScope::Last, None, binary_op_exit()));
        }
        AddSub { range_check_lo, range_check_hi, add, is_add, is_u8, is_u16, is_u32, is_u64, is_u128, is_u256, overflow }
    }
}

/// The witness of an `AddSub` stage at its last row.
#[derive(Debug)]
pub struct AddSubWitness {
    /// `(inverse, result)` of the opcode test.
    pub is_add: (Fe, Fe),
    /// `(inverse, result)` of the width tests, for 1, 2, 4, 8, 16 and 32 bytes.
    pub is_width: Vec<(Fe, Fe)>,
    pub carry_lo: Fe,
    pub carry_hi: Fe,
    /// The bytes of the low limb of the result.
    pub range_lo: Vec<u8>,
    /// The bytes of the high limb of the result, for 256-bit integers.
    pub range_hi: Option<Vec<u8>>,
    pub overflow: Fe,
    /// The inverses of the range tests of the result (columns `c + 42 ..=
    /// c + 48`): for a width of 1, 2, 4 or 8 bytes, that of the part of the
    /// low limb above it; zero elsewhere.
    pub range_inverses: Vec<Fe>,
}

/// The widths of the first four range tests.
pub open spec fn small_widths() -> Seq<nat> {
    seq![1, 2, 4, 8]
}

/// The widths that `aux0` may hold, in bytes.
pub open spec fn is_int_width(n: nat) -> bool {
    n == 1 || n == 2 || n == 4 || n == 8 || n == 16 || n == 32
}

/// Whether the result overflows its width: the low limb exceeds the largest
/// value of 1 to 8 bytes, the high limb is `1` for 16 bytes, the high carry is
/// `1` for 32 bytes.
pub open spec fn add_sub_overflow(num_bytes: nat, out_lo: nat, out_hi: nat, carry_hi: int) -> bool {
    if num_bytes == 1 { out_lo > 0xff }
    else if num_bytes == 2 { out_lo > 0xffff }
    else if num_bytes == 4 { out_lo > 0xffff_ffff }
    else if num_bytes == 8 { out_lo > 0xffff_ffff_ffff_ffff }
    else if num_bytes == 16 { out_hi == 1 }
    else { carry_hi == 1 }
}

/// The widths in the order of the width tests.
pub open spec fn widths() -> Seq<nat> {
    seq![1, 2, 4, 8, 16, 32]
}

impl AddSub {
    /// The witness for `opcode`, a width of `num_bytes` and the limbs of the
    /// first operand, the second and the result.
    pub fn assign(
        &self,
        opcode: u16,
        num_bytes: usize,
        lhs_lo: u128,
        lhs_hi: u128,
        rhs_lo: u128,
        rhs_hi: u128,
        out_lo: u128,
        out_hi: u128,
    ) -> (r: AddSubWitness)
        requires
            is_int_width(num_bytes as nat),
        ensures
            r.is_add.1.val() == (if opcode == Opcode::Add.spec_index() { 1nat } else { 0nat }),
            zero_test(field_diff(opcode as nat, Opcode::Add.spec_index() as nat), r.is_add),
            r.is_width@.len() == 6,
            forall|i: int| 0 <= i < 6 ==> (#[trigger] r.is_width@[i]).1.val()
                == (if num_bytes == widths()[i] { 1nat } else { 0nat }),
            forall|i: int| 0 <= i < 6 ==> zero_test(field_diff(num_bytes as nat, widths()[i]), #[trigger] r.is_width@[i]),
            ({
                let carries = if opcode == Opcode::Add.spec_index() {
                    crate::math_gadgets::add::add_carries(lhs_lo as int, lhs_hi as int, rhs_lo as int, rhs_hi as int,
                        out_lo as int, out_hi as int)
                } else {
                    crate::math_gadgets::add::add_carries(out_lo as int, out_hi as int, rhs_lo as int, rhs_hi as int,
                        lhs_lo as int, lhs_hi as int)
                };
                &&& r.carry_lo.val() == carries.0
                &&& r.carry_hi.val() == carries.1
                &&& r.overflow.val() == (if add_sub_overflow(num_bytes as nat, out_lo as nat, out_hi as nat, carries.1)
                    { 1nat } else { 0nat })
                &&& r.overflow.val() == 0 || r.overflow.val() == 1
                &&& num_bytes <= 8 ==> (r.overflow.val() == 1 <==> out_lo >= pow2(8 * num_bytes as nat))
                &&& num_bytes == 16 ==> (r.overflow.val() == 1 <==> out_hi == 1)
                &&& num_bytes == 32 ==> (r.overflow.val() == 1 <==> r.carry_hi.val() == 1)
            }),
            r.range_lo@.len() == 16,
            forall|i: int| 0 <= i < 16 ==> r.range_lo@[i] as nat == #[trigger] digit(out_lo as nat, 8, i as nat),
            num_bytes == 32 <==> r.range_hi is Some,
            r.range_hi matches Some(h) ==> h@.len() == 16
                && forall|i: int| 0 <= i < 16 ==> h@[i] as nat == #[trigger] digit(out_hi as nat, 8, i as nat),
            r.range_inverses@.len() == 7,
            forall|j: int| 0 <= j < 4 ==> inverse_of(
                if num_bytes == small_widths()[j] { range_diff(out_lo as nat, small_widths()[j]) } else { 0 },
                #[trigger] r.range_inverses@[j]),
            forall|j: int| 4 <= j < 7 ==> (#[trigger] r.range_inverses@[j]).val() == 0,
    {
        let is_add = opcode as u64 == Opcode::Add.index();
        let op = Fe::from_u64(opcode as u64);
        let add_op = Fe::from_u64(Opcode::Add.index() as u64);
        let is_add_w = self.is_add.assign(&fe_sub(&op, &add_op));
        proof {
            lemma_fe_sub_zero(op.val(), add_op.val());
        }
        let n = Fe::from_u64(num_bytes as u64);
        let gadgets = [&self.is_u8, &self.is_u16, &self.is_u32, &self.is_u64, &self.is_u128, &self.is_u256];
        let ws: [u64; 6] = [1, 2, 4, 8, 16, 32];
        let mut is_width: Vec<(Fe, Fe)> = Vec::new();
        let mut i: usize = 0;
        while i < 6
            invariant
                i <= 6,
                n.val() == num_bytes,
                is_int_width(num_bytes as nat),
                ws@ == seq![1u64, 2, 4, 8, 16, 32],
                is_width@.len() == i,
                forall|k: int| 0 <= k < i ==> (#[trigger] is_width@[k]).1.val()
                    == (if num_bytes == widths()[k] { 1nat } else { 0nat }),
                forall|k: int| 0 <= k < i ==> zero_test(field_diff(num_bytes as nat, widths()[k]), #[trigger] is_width@[k]),
            decreases 6 - i,
        {
            let w = Fe::from_u64(ws[i]);
            let d = fe_sub(&n, &w);
            proof {
                lemma_fe_sub_zero(n.val(), w.val());
            }
            is_width.push(gadgets[i].assign(&d));
            i = i + 1;
        }
        let (carry_lo, carry_hi) = self.add.assign(lhs_lo, lhs_hi, rhs_lo, rhs_hi, out_lo, out_hi, is_add);
        let range_lo = first_bytes(&Fe::from_u128(out_lo), 16);
        let mut range_hi: Option<Vec<u8>> = None;
        let overflow = if num_bytes == 1 {
            out_lo > 0xff
        } else if num_bytes == 2 {
            out_lo > 0xffff
        } else if num_bytes == 4 {
            out_lo > 0xffff_ffff
        } else if num_bytes == 8 {
            out_lo > 0xffff_ffff_ffff_ffff
        } else if num_bytes == 16 {
            out_hi == 1
        } else {
            range_hi = Some(first_bytes(&Fe::from_u128(out_hi), 16));
            let one = Fe::one();
            !fe_lt(&carry_hi, &one) && !fe_lt(&one, &carry_hi)
        };
        let mut range_inverses: Vec<Fe> = Vec::new();
        let sw: [usize; 4] = [1, 2, 4, 8];
        let mut j: usize = 0;
        while j < 7
            invariant
                j <= 7,
                sw@ == seq![1usize, 2, 4, 8],
                range_inverses@.len() == j,
                forall|t: int| 0 <= t < j && t < 4 ==> inverse_of(
                    if num_bytes == small_widths()[t] { range_diff(out_lo as nat, small_widths()[t]) } else { 0 },
                    #[trigger] range_inverses@[t]),
                forall|t: int| 4 <= t < j ==> (#[trigger] range_inverses@[t]).val() == 0,
            decreases 7 - j,
        {
            if j < 4 && num_bytes == sw[j] {
                range_inverses.push(range_inverse(out_lo, sw[j]));
            } else {
                range_inverses.push(Fe::zero());
            }
            j = j + 1;
        }
        proof {
            lemma_add_sub_overflow_bound(num_bytes as nat, out_lo as nat, out_hi as nat, carry_hi.val() as int);
        }
        AddSubWitness {
            is_add: is_add_w,
            is_width,
            carry_lo,
            carry_hi,
            range_lo,
            range_hi,
            overflow: Fe::from_bool(overflow),
            range_inverses,
        }
    }
}

/// `a - b` in the field is zero exactly when `a == b`, for values below the
/// field order.
pub proof fn lemma_fe_sub_zero(a: nat, b: nat)
    requires
        a < modulus(),
        b < modulus(),
    ensures
        ((a + modulus() - b) as nat % modulus() == 0) <==> a == b,
{
    let p = modulus() as int;
    lemma_modulus_bounds();
    let x = a + p - b;
    assert(0 < x < 2 * p);
    if a == b {
        vstd::arithmetic::div_mod::lemma_mod_self_0(p);
    } else if x < p {
        vstd::arithmetic::div_mod::lemma_small_mod(x as nat, p as nat);
    } else {
        vstd::arithmetic::div_mod::lemma_mod_multiples_vanish(1, x - p, p);
        vstd::arithmetic::div_mod::lemma_small_mod((x - p) as nat, p as nat);
    }
}

} // verus!
