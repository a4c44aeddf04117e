use vstd::prelude::*;
use crate::builder::{Constraint, ConstraintBuilder, RowScope, Requirement, Transition, at, byte_range_records,
    e_boolean, e_in_set, lemma_boolean_cell, req, transition_records};
use crate::bytes::digit;
use crate::executions::add_sub::{cell_at, cells_from, lemma_fe_sub_zero};
use crate::executions::common::{e_opcodes, opcode_exprs};
use crate::expr::{Cell, Expression, Witness, e_cell, e_const, e_mul, e_sub, eval};
use crate::field::{Fe, fe_sub, field_diff, field_is_prime, field_witness, lemma_modulus_bounds, modulus};
use crate::math_gadgets::is_zero::{IsZeroGadget, e_is_zero, is_zero_checks, lemma_is_zero_product_one, zero_test,
    lemma_is_zero_sound};
use crate::sub_index::polys_at;
use crate::math_gadgets::range_check::{LimbRangeCheck, e_bytes, e_in_range, first_bytes, inverse_of, range_diff,
    lemma_in_range_sound, lemma_unit_factor, range_inverse};
use vstd::arithmetic::div_mod::{lemma_fundamental_div_mod, lemma_mod_multiples_vanish, lemma_small_mod, lemma_sub_mod_noop};
use vstd::arithmetic::power2::{lemma_pow2_strictly_increases, pow2};
use crate::opcode::Opcode;
use crate::step::{StateField, StepState};

verus! {

/// `CastU8` .. `CastU256`: pops an integer and pushes it unchanged unless it
/// does not fit the target width, which sets `overflow`.
#[derive(Debug)]
pub struct Cast {
    pub cast_u8: IsZeroGadget,
    pub cast_u16: IsZeroGadget,
    pub cast_u32: IsZeroGadget,
    pub cast_u64: IsZeroGadget,
    pub cast_u128: IsZeroGadget,
    pub cast_u256: IsZeroGadget,
    pub in_range_lo: LimbRangeCheck,
    pub is_zero_hi: IsZeroGadget,
    pub overflow: Cell,
}

/// The cast instructions, from the narrowest target to the widest.
pub open spec fn cast_opcodes() -> Seq<Opcode> {
    seq![Opcode::CastU8, Opcode::CastU16, Opcode::CastU32, Opcode::CastU64, Opcode::CastU128, Opcode::CastU256]
}

/// The byte widths of the targets, in the same order.
pub open spec fn cast_widths() -> Seq<nat> {
    seq![1, 2, 4, 8, 16, 32]
}

/// `1` when the opcode is cast `k` (in the order of `cast_opcodes`).
pub open spec fn e_is_cast(s: StepState, k: int, inverse: Cell) -> Expression {
    e_is_zero(e_sub(e_cell(s.opcode), e_const(cast_opcodes()[k].spec_index() as u128)), inverse)
}

/// The constraints of `Cast` with its cells allocated from column `c`: the
/// inverses of the opcode tests (`c ..= c + 5`), the bytes of the low limb
/// (`c + 6 ..`), the inverse of the test of the high limb (`c + 22`),
/// `overflow` (`c + 23`) and the inverses of the range tests (`c + 24 ..= c + 28`).
pub open spec fn cast_constraints(s: StepState, c: int) -> Seq<Constraint> {
    let lo = e_cell(s.stack_pop_value.cells[0]);
    let hi = e_cell(s.stack_pop_value.cells[1]);
    let bytes = cells_from(c + 6, 16);
    let hi_is_zero = e_is_zero(hi, cell_at(c + 22));
    let overflow = e_cell(cell_at(c + 23));
    let fits = |k: int| seq![
        at(RowScope::All, "the input value is well assigned", e_mul(e_is_cast(s, k, cell_at(c + k)), e_sub(lo, e_bytes(bytes)))),
    ] + polys_at(is_zero_checks(e_sub(lo, e_bytes(bytes.take(cast_widths()[k] as int))), cell_at(c + 24 + k)), RowScope::All,
        Some(e_is_cast(s, k, cell_at(c + k)))) + seq![
        at(RowScope::All, "!overflow == in_range(lo) && is_zero(hi)", e_mul(e_is_cast(s, k, cell_at(c + k)),
            e_sub(e_sub(e_const(1), overflow), e_mul(e_in_range(lo, bytes, cast_widths()[k], cell_at(c + 24 + k)), hi_is_zero)))),
    ];
    seq![
        at(RowScope::All, "opcode in OPCODES", e_in_set(e_cell(s.opcode), e_opcodes(cast_opcodes()))),
        at(RowScope::All, "step_counter(0) == 1", e_sub(e_cell(s.step_counter), e_const(1))),
        at(RowScope::All, "stack_pop_index(0) == sp(0)", e_sub(e_cell(s.stack_pop_index), e_cell(s.sp))),
        at(RowScope::All, "stack_pop_sub_index(0) == 0", e_cell(s.stack_pop_sub_index)),
        at(RowScope::All, "stack_pop_value_header(0) == false", e_cell(s.stack_pop_value_header)),
        at(RowScope::All, "stack_push_index(0) == sp(0)", e_sub(e_cell(s.stack_push_index), e_cell(s.sp))),
        at(RowScope::All, "stack_push_sub_index(0) == 0", e_cell(s.stack_push_sub_index)),
        at(RowScope::All, "stack_push_value_header(0) == false", e_cell(s.stack_push_value_header)),
        at(RowScope::All, "stack_push_version(0) == clk(0)", e_sub(e_cell(s.stack_push_version), e_cell(s.clk))),
        at(RowScope::All, "Constrain cell to be a bool", e_boolean(overflow)),
    ] + fits(0) + fits(1) + fits(2) + fits(3) + fits(4) + seq![
        at(RowScope::All, "stack_push_value(0) == stack_pop_value(0)",
            e_mul(e_sub(e_const(1), overflow), e_sub(s.stack_push_value.spec_expr(), s.stack_pop_value.spec_expr()))),
        at(RowScope::All, "overflow == 0 for CastU256", e_mul(e_is_cast(s, 5, cell_at(c + 5)), overflow)),
    ] + cast_flag_checks(s, c)
}

/// The checks of the opcode tests and of the test of the high limb.
pub open spec fn cast_flag_checks(s: StepState, c: int) -> Seq<Constraint> {
    let t = |k: int| polys_at(is_zero_checks(e_sub(e_cell(s.opcode), e_const(cast_opcodes()[k].spec_index() as u128)),
        cell_at(c + k)), RowScope::All, None);
    t(0) + t(1) + t(2) + t(3) + t(4) + t(5)
        + polys_at(is_zero_checks(e_cell(s.stack_pop_value.cells[1]), cell_at(c + 22)), RowScope::All, None)
}

/// Without overflow: the same stack pointer and the next instruction.
pub open spec fn cast_exit() -> Seq<(StateField, Transition)> {
    seq![(StateField::Sp, Transition::Same), (StateField::Pc, Transition::Delta(e_const(1)))]
}

fn cast_opcode_array() -> (r: [Opcode; 6])
    ensures
        r@ == cast_opcodes(),
{
    let r = [Opcode::CastU8, Opcode::CastU16, Opcode::CastU32, Opcode::CastU64, Opcode::CastU128, Opcode::CastU256];
    proof {
        assert(r@ =~= cast_opcodes());
    }
    r
}

fn cast_width_array() -> (r: [usize; 6])
    ensures
        forall|k: int| 0 <= k < 6 ==> r@[k] == #[trigger] cast_widths()[k],
{
    [1, 2, 4, 8, 16, 32]
}

impl Cast {
    #[verifier::rlimit(100)]
    pub fn configure(cb: &mut ConstraintBuilder) -> (r: Cast)
        requires
            old(cb).wf(),
            old(cb).scope == RowScope::All,
            old(cb).condition is None,
            old(cb).has_room(29),
        ensures
            final(cb).wf(),
            final(cb).scope == RowScope::All,
            final(cb).condition is None,
            final(cb).curr == old(cb).curr,
            final(cb).next_column == old(cb).next_column + 29,
            r.cast_u8.is_zero == e_is_cast(old(cb).curr, 0, cell_at(old(cb).next_column as int)),
            r.cast_u256.is_zero == e_is_cast(old(cb).curr, 5, cell_at(old(cb).next_column + 5)),
            r.in_range_lo.bytes@ == cells_from(old(cb).next_column + 6, 16),
            r.is_zero_hi.is_zero == e_is_zero(e_cell(old(cb).curr.stack_pop_value.cells[1]), cell_at(old(cb).next_column + 22)),
            r.overflow == cell_at(old(cb).next_column + 23),
            final(cb).constraints@ == old(cb).constraints@ + cast_constraints(old(cb).curr, old(cb).next_column as int),
            final(cb).lookups@.len() == old(cb).lookups@.len() + 16,
            final(cb).lookups@.take(old(cb).lookups@.len() as int) == old(cb).lookups@,
            byte_range_records(final(cb).lookups@.skip(old(cb).lookups@.len() as int), r.in_range_lo.bytes@,
                RowScope::All, None),
            final(cb).requirements@ == old(cb).requirements@ + seq![req(RowScope::All, None, Requirement::NoLocalOp)]
                + transition_records(RowScope::All, Some(e_sub(e_const(1), e_cell(r.overflow))), cast_exit()),
    {
        let ghost c = cb.next_column as int;
        let s = cb.curr;
        let ops = cast_opcode_array();
        let cast_u8 = IsZeroGadget::construct(cb, Expression::sub(s.opcode.expr(), Expression::constant(ops[0].index() as u128)));
        let cast_u16 = IsZeroGadget::construct(cb, Expression::sub(s.opcode.expr(), Expression::constant(ops[1].index() as u128)));
        let cast_u32 = IsZeroGadget::construct(cb, Expression::sub(s.opcode.expr(), Expression::constant(ops[2].index() as u128)));
        let cast_u64 = IsZeroGadget::construct(cb, Expression::sub(s.opcode.expr(), Expression::constant(ops[3].index() as u128)));
        let cast_u128 = IsZeroGadget::construct(cb, Expression::sub(s.opcode.expr(), Expression::constant(ops[4].index() as u128)));
        let cast_u256 = IsZeroGadget::construct(cb, Expression::sub(s.opcode.expr(), Expression::constant(ops[5].index() as u128)));
        cb.require_in_set("opcode in OPCODES", s.opcode.expr(), opcode_exprs(&ops));
        cb.require_equal("step_counter(0) == 1", s.step_counter.expr(), Expression::constant(1));
        cb.require_equal("stack_pop_index(0) == sp(0)", s.stack_pop_index.expr(), s.sp.expr());
        cb.require_zero("stack_pop_sub_index(0) == 0", s.stack_pop_sub_index.expr());
        cb.require_zero("stack_pop_value_header(0) == false", s.stack_pop_value_header.expr());
        cb.require_equal("stack_push_index(0) == sp(0)", s.stack_push_index.expr(), s.sp.expr());
        cb.require_zero("stack_push_sub_index(0) == 0", s.stack_push_sub_index.expr());
        cb.require_zero("stack_push_value_header(0) == false", s.stack_push_value_header.expr());
        cb.require_equal("stack_push_version(0) == clk(0)", s.stack_push_version.expr(), s.clk.expr());
        cb.require_no_local_op();

        let in_range_lo = LimbRangeCheck::construct(cb);
        let hi = s.stack_pop_value.as_integer().hi();
        let lo = s.stack_pop_value.as_integer().lo();
        let is_zero_hi = IsZeroGadget::construct(cb, hi);
        let overflow = cb.query_bool();

        let c8 = cb.condition_begin(cast_u8.expr());
        let in_range = in_range_lo.in_range(cb, lo.copy(), 1);
        cb.require_equal("!overflow == in_range(lo) && is_zero(hi)",
            Expression::sub(Expression::constant(1), overflow.expr()), Expression::mul(in_range, is_zero_hi.expr()));
        cb.condition_end(c8);
        let c16 = cb.condition_begin(cast_u16.expr());
        let in_range = in_range_lo.in_range(cb, lo.copy(), 2);
        cb.require_equal("!overflow == in_range(lo) && is_zero(hi)",
            Expression::sub(Expression::constant(1), overflow.expr()), Expression::mul(in_range, is_zero_hi.expr()));
        cb.condition_end(c16);
        let c32 = cb.condition_begin(cast_u32.expr());
        let in_range = in_range_lo.in_range(cb, lo.copy(), 4);
        cb.require_equal("!overflow == in_range(lo) && is_zero(hi)",
            Expression::sub(Expression::constant(1), overflow.expr()), Expression::mul(in_range, is_zero_hi.expr()));
        cb.condition_end(c32);
        let c64 = cb.condition_begin(cast_u64.expr());
        let in_range = in_range_lo.in_range(cb, lo.copy(), 8);
        cb.require_equal("!overflow == in_range(lo) && is_zero(hi)",
            Expression::sub(Expression::constant(1), overflow.expr()), Expression::mul(in_range, is_zero_hi.expr()));
        cb.condition_end(c64);
        let c128 = cb.condition_begin(cast_u128.expr());
        let in_range = in_range_lo.in_range(cb, lo, 16);
        cb.require_equal("!overflow == in_range(lo) && is_zero(hi)",
            Expression::sub(Expression::constant(1), overflow.expr()), Expression::mul(in_range, is_zero_hi.expr()));
        cb.condition_end(c128);

        let ok = cb.condition_begin(Expression::sub(Expression::constant(1), overflow.expr()));
        cb.require_equal("stack_push_value(0) == stack_pop_value(0)", s.stack_push_value.expr(), s.stack_pop_value.expr());
        let exit = vec![(StateField::Sp, Transition::Same), (StateField::Pc, Transition::Delta(Expression::constant(1)))];
        proof {
            assert(exit@ =~= cast_exit());
        }
        cb.require_state_transitions(exit);
        cb.condition_end(ok);
        let c256 = cb.condition_begin(cast_u256.expr());
        cb.require_zero("overflow == 0 for CastU256", overflow.expr());
        cb.condition_end(c256);
        let ghost cf = cb.constraints@;
        cast_u8.constrain(cb);
        cast_u16.constrain(cb);
        cast_u32.constrain(cb);
        cast_u64.constrain(cb);
        cast_u128.constrain(cb);
        cast_u256.constrain(cb);
        is_zero_hi.constrain(cb);
        proof {
            assert(in_range_lo.bytes@ =~= cells_from(c + 6, 16));
            assert(cb.constraints@ =~= cf + cast_flag_checks(s, c));
            assert(cb.constraints@ =~= old(cb).constraints@ + cast_constraints(s, c));
            assert(cb.requirements@ =~= old(cb).requirements@ + seq![req(RowScope::All, None, Requirement::NoLocalOp)]
                + transition_records(RowScope::All, Some(e_sub(e_const(1), e_cell(overflow))), cast_exit()));
        }
        Cast { cast_u8, cast_u16, cast_u32, cast_u64, cast_u128, cast_u256, in_range_lo, is_zero_hi, overflow }
    }
}

/// The witness of a `Cast` stage.
#[derive(Debug)]
pub struct CastWitness {
    /// `(inverse, result)` of the opcode tests, in the order of `cast_opcodes`.
    pub casts: Vec<(Fe, Fe)>,
    /// The bytes of the low limb of the operand.
    pub range_lo: Vec<u8>,
    /// `(inverse, result)` of the test of the high limb.
    pub hi: (Fe, Fe),
    /// The inverses of the range tests of the low limb (columns `c + 24 ..=
    /// c + 28`): for a cast to 1, 2, 4 or 8 bytes, that of the part of the
    /// low limb above the target; zero elsewhere.
    pub range_inverses: Vec<Fe>,
}

/// The width in bytes of a cast instruction's target.
pub open spec fn cast_width(opcode: nat) -> Option<nat> {
    if opcode == Opcode::CastU8.spec_index() { Some(1) }
    else if opcode == Opcode::CastU16.spec_index() { Some(2) }
    else if opcode == Opcode::CastU32.spec_index() { Some(4) }
    else if opcode == Opcode::CastU64.spec_index() { Some(8) }
    else if opcode == Opcode::CastU128.spec_index() { Some(16) }
    else if opcode == Opcode::CastU256.spec_index() { Some(32) }
    else { None }
}

impl Cast {
    /// The witness for a cast `opcode` of the integer `lo + hi * 2^128`.
    pub fn assign(&self, opcode: u16, lo: u128, hi: u128) -> (r: CastWitness)
        requires
            cast_width(opcode as nat) is Some,
        ensures
            r.casts@.len() == 6,
            forall|k: int| 0 <= k < 6 ==> (#[trigger] r.casts@[k]).1.val()
                == (if opcode == cast_opcodes()[k].spec_index() { 1nat } else { 0nat }),
            forall|k: int| 0 <= k < 6 ==> zero_test(field_diff(opcode as nat, cast_opcodes()[k].spec_index() as nat),
                #[trigger] r.casts@[k]),
            r.range_lo@.len() == 16,
            forall|i: int| 0 <= i < 16 ==> r.range_lo@[i] as nat == #[trigger] digit(lo as nat, 8, i as nat),
            r.hi.1.val() == (if hi == 0 { 1nat } else { 0nat }),
            zero_test(hi as nat, r.hi),
            r.range_inverses@.len() == 5,
            forall|j: int| 0 <= j < 4 ==> inverse_of(
                if opcode == cast_opcodes()[j].spec_index() { range_diff(lo as nat, cast_widths()[j]) } else { 0 },
                #[trigger] r.range_inverses@[j]),
            r.range_inverses@[4].val() == 0,
    {
        let op = Fe::from_u64(opcode as u64);
        let ops = cast_opcode_array();
        let gadgets = [&self.cast_u8, &self.cast_u16, &self.cast_u32, &self.cast_u64, &self.cast_u128, &self.cast_u256];
        let mut casts: Vec<(Fe, Fe)> = Vec::new();
        let mut k: usize = 0;
        while k < 6
            invariant
                k <= 6,
                op.val() == opcode,
                ops@ == cast_opcodes(),
                casts@.len() == k,
                forall|j: int| 0 <= j < k ==> (#[trigger] casts@[j]).1.val()
                    == (if opcode == cast_opcodes()[j].spec_index() { 1nat } else { 0nat }),
                forall|j: int| 0 <= j < k ==> zero_test(field_diff(opcode as nat, cast_opcodes()[j].spec_index() as nat),
                    #[trigger] casts@[j]),
            decreases 6 - k,
        {
            let target = Fe::from_u64(ops[k].index());
            proof {
                lemma_fe_sub_zero(op.val(), target.val());
            }
            casts.push(gadgets[k].assign(&fe_sub(&op, &target)));
            k = k + 1;
        }
        let range_lo = first_bytes(&Fe::from_u128(lo), 16);
        let hi_fe = Fe::from_u128(hi);
        let mut range_inverses: Vec<Fe> = Vec::new();
        let sw: [usize; 4] = [1, 2, 4, 8];
        let mut j: usize = 0;
        while j < 5
            invariant
                j <= 5,
                sw@ == seq![1usize, 2, 4, 8],
                ops@ == cast_opcodes(),
                range_inverses@.len() == j,
                forall|t: int| 0 <= t < j && t < 4 ==> inverse_of(
                    if opcode == cast_opcodes()[t].spec_index() { range_diff(lo as nat, cast_widths()[t]) } else { 0 },
                    #[trigger] range_inverses@[t]),
                j > 4 ==> range_inverses@[4].val() == 0,
            decreases 5 - j,
        {
            if j < 4 && opcode as u64 == ops[j].index() {
                range_inverses.push(range_inverse(lo, sw[j]));
            } else {
                range_inverses.push(Fe::zero());
            }
            j = j + 1;
        }
        CastWitness { casts, range_lo, hi: self.is_zero_hi.assign(&hi_fe), range_inverses }
    }
}

/// A cast to 256 bits never overflows and copies its operand: in a prime
/// field, on a row of field elements where the opcode test of `CastU256` is
/// `1` and the constraints `Constrain cell to be a bool` (of `overflow`),
/// `overflow == 0 for CastU256` and `stack_push_value(0) == stack_pop_value(0)`
/// hold, `overflow` is `0` and the pushed value is the popped one, modulo the
/// field order.
pub proof fn lemma_cast_u256_copies(s: StepState, c: int, w: Witness, row: int)
    requires
        field_is_prime(),
        field_witness(w),
        eval(e_is_cast(s, 5, cell_at(c + 5)), w, row) % (modulus() as int) == 1,
        eval(e_boolean(e_cell(cell_at(c + 23))), w, row) % (modulus() as int) == 0,
        eval(e_mul(e_is_cast(s, 5, cell_at(c + 5)), e_cell(cell_at(c + 23))), w, row) % (modulus() as int) == 0,
        eval(e_mul(e_sub(e_const(1), e_cell(cell_at(c + 23))), e_sub(s.stack_push_value.spec_expr(),
            s.stack_pop_value.spec_expr())), w, row) % (modulus() as int) == 0,
    ensures
        eval(e_cell(cell_at(c + 23)), w, row) == 0,
        eval(s.stack_push_value.spec_expr(), w, row) % (modulus() as int)
            == eval(s.stack_pop_value.spec_expr(), w, row) % (modulus() as int),
{
    let p = modulus() as int;
    lemma_modulus_bounds();
    reveal_with_fuel(eval, 3);
    lemma_boolean_cell(cell_at(c + 23), w, row);
    let o = eval(e_cell(cell_at(c + 23)), w, row);
    lemma_unit_factor(eval(e_is_cast(s, 5, cell_at(c + 5)), w, row), o);
    if o == 1 {
        vstd::arithmetic::div_mod::lemma_small_mod(1, p as nat);
    }
    let a = eval(s.stack_push_value.spec_expr(), w, row);
    let b = eval(s.stack_pop_value.spec_expr(), w, row);
    assert(eval(e_sub(e_const(1), e_cell(cell_at(c + 23))), w, row) == 1);
    assert((a - b) % p == 0);
    vstd::arithmetic::div_mod::lemma_fundamental_div_mod(a - b, p);
    vstd::arithmetic::div_mod::lemma_mod_multiples_vanish((a - b) / p, b, p);
}

/// What `Cast` proves for a target narrower than 256 bits: on a row whose
/// opcode is the cast to `cast_widths()[k]` bytes, where every constraint of
/// `Cast` holds in a prime field on a row of field elements, the bytes of
/// the low limb are bytes and the popped limbs are below `2^128`, `overflow`
/// is `0` exactly when the popped integer
/// `lo + 2^128 ⋅ hi` fits the target width, and then the pushed value is the
/// popped one, modulo the field order.
pub proof fn lemma_cast_sound(s: StepState, c: int, k: int, w: Witness, row: int)
    requires
        0 <= k < 5,
        eval(e_cell(s.opcode), w, row) == cast_opcodes()[k].spec_index(),
        forall|i: int| 0 <= i < cast_constraints(s, c).len() ==>
            #[trigger] eval(cast_constraints(s, c)[i].poly, w, row) % (modulus() as int) == 0,
        0 <= eval(e_cell(s.stack_pop_value.cells[0]), w, row) < pow2(128),
        0 <= eval(e_cell(s.stack_pop_value.cells[1]), w, row) < pow2(128),
        forall|i: int| 0 <= i < 16 ==> 0 <= #[trigger] eval(e_cell(cells_from(c + 6, 16)[i]), w, row) < 256,
        field_is_prime(),
        field_witness(w),
    ensures
        eval(e_cell(cell_at(c + 23)), w, row) == 0 <==> (eval(e_cell(s.stack_pop_value.cells[1]), w, row) == 0
            && eval(e_cell(s.stack_pop_value.cells[0]), w, row) < pow2(8 * cast_widths()[k])),
        eval(e_cell(cell_at(c + 23)), w, row) == 0 ==> eval(s.stack_push_value.spec_expr(), w, row)
            % (modulus() as int) == eval(s.stack_pop_value.spec_expr(), w, row) % (modulus() as int),
{
    let p = modulus() as int;
    let cs = cast_constraints(s, c);
    lemma_cast_layout(s, c, k);
    assert(eval(cs[9].poly, w, row) % p == 0);
    assert(eval(cs[10 + 4 * k].poly, w, row) % p == 0);
    assert(eval(cs[11 + 4 * k].poly, w, row) % p == 0);
    assert(eval(cs[12 + 4 * k].poly, w, row) % p == 0);
    assert(eval(cs[13 + 4 * k].poly, w, row) % p == 0);
    assert(eval(cs[30].poly, w, row) % p == 0);
    assert(eval(cs[44].poly, w, row) % p == 0);
    assert(eval(cs[45].poly, w, row) % p == 0);
    lemma_boolean_cell(cell_at(c + 23), w, row);
    lemma_cast_decide(s, c, k, w, row);
}

/// The copy constraint of `Cast`: without overflow, the pushed value is
/// the popped one.
pub open spec fn cast_copy_poly(s: StepState, c: int) -> Expression {
    e_mul(e_sub(e_const(1), e_cell(cell_at(c + 23))), e_sub(s.stack_push_value.spec_expr(), s.stack_pop_value.spec_expr()))
}

/// Where the constraints that `lemma_cast_sound` uses stand in
/// `cast_constraints`.
#[verifier::rlimit(60)]
proof fn lemma_cast_layout(s: StepState, c: int, k: int)
    requires
        0 <= k < 5,
    ensures
        ({
            let cs = cast_constraints(s, c);
            let lo = e_cell(s.stack_pop_value.cells[0]);
            let hi = e_cell(s.stack_pop_value.cells[1]);
            let bytes = cells_from(c + 6, 16);
            let n = cast_widths()[k];
            let flag = e_is_cast(s, k, cell_at(c + k));
            let inv = cell_at(c + 24 + k);
            let checks = is_zero_checks(e_sub(lo, e_bytes(bytes.take(n as int))), inv);
            &&& cs.len() == 46
            &&& cs[9].poly == e_boolean(e_cell(cell_at(c + 23)))
            &&& cs[10 + 4 * k].poly == e_mul(flag, e_sub(lo, e_bytes(bytes)))
            &&& cs[11 + 4 * k].poly == e_mul(flag, checks[0].1)
            &&& cs[12 + 4 * k].poly == e_mul(flag, checks[1].1)
            &&& cs[13 + 4 * k].poly == e_mul(flag, e_sub(e_sub(e_const(1), e_cell(cell_at(c + 23))),
                e_mul(e_in_range(lo, bytes, n, inv), e_is_zero(hi, cell_at(c + 22)))))
            &&& cs[30].poly == cast_copy_poly(s, c)
            &&& cs[44].poly == is_zero_checks(hi, cell_at(c + 22))[0].1
            &&& cs[45].poly == is_zero_checks(hi, cell_at(c + 22))[1].1
        }),
{
}

/// The core of `lemma_cast_sound`, from the constraints that speak of the
/// target `k`.
#[verifier::rlimit(60)]
proof fn lemma_cast_decide(s: StepState, c: int, k: int, w: Witness, row: int)
    requires
        0 <= k < 5,
        eval(e_cell(s.opcode), w, row) == cast_opcodes()[k].spec_index(),
        0 <= eval(e_cell(s.stack_pop_value.cells[0]), w, row) < pow2(128),
        0 <= eval(e_cell(s.stack_pop_value.cells[1]), w, row) < pow2(128),
        forall|i: int| 0 <= i < 16 ==> 0 <= #[trigger] eval(e_cell(cells_from(c + 6, 16)[i]), w, row) < 256,
        eval(e_cell(cell_at(c + 23)), w, row) == 0 || eval(e_cell(cell_at(c + 23)), w, row) == 1,
        ({
            let lo = e_cell(s.stack_pop_value.cells[0]);
            let hi = e_cell(s.stack_pop_value.cells[1]);
            let bytes = cells_from(c + 6, 16);
            let n = cast_widths()[k];
            let flag = e_is_cast(s, k, cell_at(c + k));
            let inv = cell_at(c + 24 + k);
            let checks = is_zero_checks(e_sub(lo, e_bytes(bytes.take(n as int))), inv);
            let p = modulus() as int;
            &&& eval(e_mul(flag, e_sub(lo, e_bytes(bytes))), w, row) % p == 0
            &&& eval(e_mul(flag, checks[0].1), w, row) % p == 0
            &&& eval(e_mul(flag, checks[1].1), w, row) % p == 0
            &&& eval(e_mul(flag, e_sub(e_sub(e_const(1), e_cell(cell_at(c + 23))),
                e_mul(e_in_range(lo, bytes, n, inv), e_is_zero(hi, cell_at(c + 22))))), w, row) % p == 0
            &&& eval(cast_copy_poly(s, c), w, row) % p == 0
            &&& eval(is_zero_checks(hi, cell_at(c + 22))[0].1, w, row) % p == 0
            &&& eval(is_zero_checks(hi, cell_at(c + 22))[1].1, w, row) % p == 0
        }),
    ensures
        eval(e_cell(cell_at(c + 23)), w, row) == 0 <==> (eval(e_cell(s.stack_pop_value.cells[1]), w, row) == 0
            && eval(e_cell(s.stack_pop_value.cells[0]), w, row) < pow2(8 * cast_widths()[k])),
        eval(e_cell(cell_at(c + 23)), w, row) == 0 ==> eval(s.stack_push_value.spec_expr(), w, row)
            % (modulus() as int) == eval(s.stack_pop_value.spec_expr(), w, row) % (modulus() as int),
{
    let p = modulus() as int;
    lemma_modulus_bounds();
    let lo = e_cell(s.stack_pop_value.cells[0]);
    let hi = e_cell(s.stack_pop_value.cells[1]);
    let bytes = cells_from(c + 6, 16);
    let n = cast_widths()[k];
    let flag = e_is_cast(s, k, cell_at(c + k));
    let o = eval(e_cell(cell_at(c + 23)), w, row);
    let lo_v = eval(lo, w, row);
    let hi_v = eval(hi, w, row);
    let inv = cell_at(c + 24 + k);
    let d = e_sub(lo, e_bytes(bytes.take(n as int)));
    let checks = is_zero_checks(d, inv);
    let r_e = e_in_range(lo, bytes, n, inv);
    let z_e = e_is_zero(hi, cell_at(c + 22));
    reveal_with_fuel(eval, 4);
    // the opcode test is 1
    let op_d = e_sub(e_cell(s.opcode), e_const(cast_opcodes()[k].spec_index() as u128));
    assert(eval(op_d, w, row) == 0);
    assert(eval(e_mul(op_d, e_cell(cell_at(c + k))), w, row) == 0);
    assert(eval(flag, w, row) == 1);
    lemma_small_mod(1, p as nat);
    lemma_unit_factor(1, eval(checks[0].1, w, row));
    lemma_unit_factor(1, eval(checks[1].1, w, row));
    lemma_unit_factor(1, eval(e_sub(lo, e_bytes(bytes)), w, row));
    assert forall|kk: int| 0 <= kk < 2 implies #[trigger] eval(checks[kk].1, w, row) % p == 0 by {}
    lemma_in_range_sound(lo, bytes, n, inv, w, row);
    let b_v = eval(e_bytes(bytes), w, row);
    lemma_pow2_strictly_increases(128, 254);
    crate::math_gadgets::add::lemma_small_int_mod_zero(lo_v - b_v, p);
    assert(lo_v == b_v);
    let ga = IsZeroGadget { inverse: inv, value: d, is_zero: r_e };
    let gb = IsZeroGadget { inverse: cell_at(c + 22), value: hi, is_zero: z_e };
    lemma_is_zero_sound(gb, w, row);
    let r = eval(r_e, w, row);
    let z = eval(z_e, w, row);
    let t = eval(e_sub(e_sub(e_const(1), e_cell(cell_at(c + 23))), e_mul(r_e, z_e)), w, row);
    assert(t == (1 - o) - r * z);
    lemma_unit_factor(1, t);
    if o == 0 {
        lemma_sub_mod_noop(1, 1 - r * z, p);
        assert((r * z) % p == 1);
        lemma_is_zero_product_one(ga, gb, w, row);
        lemma_small_mod(hi_v as nat, p as nat);
        let a = eval(s.stack_push_value.spec_expr(), w, row);
        let b = eval(s.stack_pop_value.spec_expr(), w, row);
        let one_minus = eval(e_sub(e_const(1), e_cell(cell_at(c + 23))), w, row);
        assert(one_minus == 1);
        assert(eval(cast_copy_poly(s, c), w, row) == one_minus * (a - b));
        assert(one_minus * (a - b) == a - b) by (nonlinear_arith) requires one_minus == 1;
        assert((a - b) % p == 0);
        lemma_fundamental_div_mod(a - b, p);
        lemma_mod_multiples_vanish((a - b) / p, b, p);
    } else {
        if hi_v == 0 && lo_v < pow2(8 * n) {
            let iv = eval(e_cell(cell_at(c + 22)), w, row);
            assert(hi_v * iv == 0) by (nonlinear_arith) requires hi_v == 0;
            assert(eval(e_mul(hi, e_cell(cell_at(c + 22))), w, row) == hi_v * iv);
            assert(z == 1);
            assert(r * z == r) by (nonlinear_arith) requires z == 1;
            lemma_fundamental_div_mod(t, p);
            lemma_mod_multiples_vanish(-(t / p), r, p);
            assert(r == -t + p * (-(t / p)));
            assert(false);
        }
    }
}

} // verus!
