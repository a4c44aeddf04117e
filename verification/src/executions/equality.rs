use vstd::prelude::*;
use crate::builder::{Constraint, ConstraintBuilder, RowScope, Requirement, Transition, at, byte_range_records,
    e_boolean, e_in_set, req, states_record, u16_range_records};
use crate::executions::add_sub::cell_at;
use crate::executions::common::{e_opcodes, minus_one, opcode_exprs};
use crate::expr::{Cell, Expression, Witness, eval, cell_exprs, e_cell, e_const, e_from_limbs, e_mul, e_not, e_rlc, e_sub, rlc_value};
use crate::field::{Fe, fe_rlc, fe_sub, fe_vals, field_diff, field_is_prime, field_product, lemma_modulus_bounds, modulus};
use crate::math_gadgets::range_check::lemma_unit_factor;
use vstd::arithmetic::div_mod::{lemma_fundamental_div_mod, lemma_mod_multiples_vanish, lemma_mod_self_0,
    lemma_mul_mod_noop_left, lemma_small_mod, lemma_sub_mod_noop};
use crate::step_witness::StackOp;
use crate::math_gadgets::is_zero::{IsZeroGadget, e_is_zero, zero_test};
use crate::bytes::le_value;
use vstd::arithmetic::power2::pow2;
use crate::math_gadgets::lt::{LtGadget, e_lt_poly};
use crate::opcode::Opcode;
use crate::step::{ExecutionState, StateField, StepState, rotate};
use crate::sub_index::{SubIndexReverse, reverse_sub_index, reversed_value};

verus! {

/// `Eq` or `Neq` (`EQ`) of two values, in two stages: the first stage
/// (`STAGE1`) pops the first value and folds its flattened limbs, row by row,
/// into `rlc1`; the second folds the second value into `rlc2` and pushes
/// whether the two combinations agree. The sub indexes of the popped limbs
/// must increase, in reversed limb order, from row to row, so that no limb is
/// left out or read twice.
#[derive(Debug)]
pub struct Equality<const STAGE1: bool, const EQ: bool> {
    pub rlc1: Cell,
    pub rlc2: Cell,
    pub stack_pop_sub_index_reverse: Cell,
    pub sub_index_reverse: SubIndexReverse<8>,
    pub sub_index_lt: LtGadget<16>,
    pub rlc1_rlc2_eq: IsZeroGadget,
}

pub open spec fn equality_opcode(eq: bool) -> Opcode {
    if eq { Opcode::Eq } else { Opcode::Neq }
}

pub open spec fn equality_stage(eq: bool, stage1: bool) -> ExecutionState {
    if eq {
        if stage1 { ExecutionState::EqStage1 } else { ExecutionState::EqStage2 }
    } else {
        if stage1 { ExecutionState::NeqStage1 } else { ExecutionState::NeqStage2 }
    }
}

/// The combination of one popped limb: its sub index, its header flag and its
/// two 128-bit halves, by the row challenge.
pub open spec fn stack_pop_rlc(s: StepState, row_randomness: Cell) -> Expression {
    e_rlc(seq![e_cell(s.stack_pop_sub_index), e_cell(s.stack_pop_value_header), e_cell(s.stack_pop_value.cells[0]),
        e_cell(s.stack_pop_value.cells[1])], e_cell(row_randomness))
}

/// The constraints of `Equality` after those of its gadgets; `c` is the
/// first column of its cells: `rlc1`, `rlc2`, the reversed sub index, its
/// 16-bit limbs (`c + 3 ..`), and the less-than and zero tests.
pub open spec fn equality_constraints(stage1: bool, eq: bool, s: StepState, c: int, limbs: Seq<Cell>, lt: Cell,
    is_zero: Expression, row_randomness: Cell, column_randomness: Cell) -> Seq<Constraint> {
    let rlc1 = cell_at(c);
    let rlc2 = cell_at(c + 1);
    let rev = cell_at(c + 2);
    let acc = if stage1 { rlc1 } else { rlc2 };
    let pop_rlc = stack_pop_rlc(s, row_randomness);
    let h = e_cell(s.stack_pop_value_header);
    let pv = s.stack_push_value.spec_expr();
    let same = e_sub(e_cell(rlc1), e_cell(rlc2));
    seq![
        at(RowScope::First, "opcode in OPCODES", e_in_set(e_cell(s.opcode), e_opcodes(seq![equality_opcode(eq)]))),
        at(RowScope::First, "stack_pop_sub_index(0) == 0", e_cell(s.stack_pop_sub_index)),
        at(RowScope::First, "step_counter(0) == stack_pop_value(0).as_header().flen",
            e_mul(h, e_sub(e_cell(s.step_counter), e_cell(s.stack_pop_value.cells[0])))),
        at(RowScope::First, "step_counter(0) == 1", e_mul(e_not(h), e_sub(e_cell(s.step_counter), e_const(1)))),
        at(RowScope::First, "stack_pop_sub_index_reverse(0) == 0", e_cell(rev)),
        at(RowScope::First, if stage1 { "rlc1(0) == stack_pop_rlc" } else { "rlc2(0) == stack_pop_rlc" },
            e_sub(e_cell(acc), pop_rlc)),
        at(RowScope::NotFirst,
            "stack_pop_sub_index_reverse(0) == SubIndexReverse::expr(stack_pop_sub_index(0))",
            e_sub(e_cell(rev), e_from_limbs(cell_exprs(limbs).reverse(), 16))),
        at(RowScope::NotFirst, "stack_pop_sub_index_reverse(-1) < stack_pop_sub_index_reverse(0)",
            e_sub(e_cell(lt), e_const(1))),
        at(RowScope::NotFirst,
            if stage1 { "rlc1(0) == gamma^4 * rlc1(-1) + stack_pop_rlc" } else { "rlc2(0) == gamma^4 * rlc2(-1) + stack_pop_rlc" },
            e_sub(e_cell(acc), e_rlc(seq![pop_rlc, e_cell(rotate(acc, -1))], e_cell(column_randomness)))),
        at(RowScope::All, "stack_pop_index(0) == sp(0)", e_sub(e_cell(s.stack_pop_index), e_cell(s.sp))),
    ] + if stage1 {
        Seq::empty()
    } else {
        seq![
            at(RowScope::All, "rlc1(0) == rlc1(-1)", e_sub(e_cell(rlc1), e_cell(rotate(rlc1, -1)))),
            at(RowScope::Last, "stack_push_index(0) == sp(0)", e_sub(e_cell(s.stack_push_index), e_cell(s.sp))),
            at(RowScope::Last, "stack_push_sub_index(0) == 0", e_cell(s.stack_push_sub_index)),
            at(RowScope::Last, "stack_push_value(0) == true | false", e_boolean(pv)),
            at(RowScope::Last, "stack_push_value_header(0) == false", e_cell(s.stack_push_value_header)),
            at(RowScope::Last, "stack_push_version(0) == clk(0)", e_sub(e_cell(s.stack_push_version), e_cell(s.clk))),
        ] + if eq {
            seq![
                at(RowScope::Last, "rlc1(0) == rlc2(0)", e_mul(pv, same)),
                at(RowScope::Last, "rlc1(0) != rlc2(0)", e_mul(e_not(pv), is_zero)),
            ]
        } else {
            seq![
                at(RowScope::Last, "rlc1(0) != rlc2(0)", e_mul(pv, is_zero)),
                at(RowScope::Last, "rlc1(0) == rlc2(0)", e_mul(e_not(pv), same)),
            ]
        }
    }
}

/// The requirements of `Equality` other than the previous stage of the
/// second stage and the next stage of the first.
pub open spec fn equality_requirements(stage1: bool) -> Seq<crate::builder::RequirementRecord> {
    seq![
        req(RowScope::All, None, Requirement::NoLocalOp),
        req(RowScope::NotLast, None, Requirement::NoStackPush),
        req(RowScope::NotLast, None, Requirement::StateTransition(StateField::Sp, Transition::Same)),
    ] + if stage1 {
        seq![
            req(RowScope::Last, None, Requirement::NoStackPush),
            req(RowScope::Last, None, Requirement::StateTransition(StateField::Sp, Transition::Delta(minus_one()))),
            req(RowScope::Last, None, Requirement::StateTransition(StateField::Pc, Transition::Same)),
        ]
    } else {
        seq![
            req(RowScope::Last, None, Requirement::StateTransition(StateField::Sp, Transition::Same)),
            req(RowScope::Last, None, Requirement::StateTransition(StateField::Pc, Transition::Delta(e_const(1)))),
        ]
    }
}

impl<const STAGE1: bool, const EQ: bool> Equality<STAGE1, EQ> {
    #[verifier::rlimit(80)]
    pub fn configure(cb: &mut ConstraintBuilder) -> (r: Self)
        requires
            old(cb).wf(),
            old(cb).scope == RowScope::All,
            old(cb).condition is None,
            old(cb).has_room(29),
        ensures
            final(cb).wf(),
            final(cb).scope == RowScope::All,
            final(cb).condition is None,
            final(cb).curr == old(cb).curr,
            final(cb).next_column == old(cb).next_column + 29,
            r.rlc1 == cell_at(old(cb).next_column as int),
            r.rlc2 == cell_at(old(cb).next_column + 1),
            r.stack_pop_sub_index_reverse == cell_at(old(cb).next_column + 2),
            r.sub_index_reverse.sub_index == e_cell(old(cb).curr.stack_pop_sub_index),
            r.sub_index_reverse.limbs@.len() == 8,
            crate::builder::fresh_cells(r.sub_index_reverse.limbs@, (old(cb).next_column + 3) as nat),
            r.sub_index_lt.lt == cell_at(old(cb).next_column + 11),
            r.sub_index_lt.diff@.len() == 16,
            crate::builder::fresh_cells(r.sub_index_lt.diff@, (old(cb).next_column + 12) as nat),
            r.rlc1_rlc2_eq.value == e_sub(e_cell(r.rlc1), e_cell(r.rlc2)),
            r.rlc1_rlc2_eq.is_zero == e_is_zero(e_sub(e_cell(r.rlc1), e_cell(r.rlc2)), cell_at(old(cb).next_column + 28)),
            final(cb).lookups@.len() == old(cb).lookups@.len() + 24,
            final(cb).lookups@.take(old(cb).lookups@.len() as int) == old(cb).lookups@,
            u16_range_records(final(cb).lookups@.subrange(old(cb).lookups@.len() as int, old(cb).lookups@.len() as int + 8),
                r.sub_index_reverse.limbs@, RowScope::All, None),
            byte_range_records(final(cb).lookups@.skip(old(cb).lookups@.len() as int + 8), r.sub_index_lt.diff@,
                RowScope::All, None),
            final(cb).constraints@ == old(cb).constraints@ + seq![
                at(RowScope::All, "sub_index == from_limbs(limbs)", e_sub(e_cell(old(cb).curr.stack_pop_sub_index),
                    e_from_limbs(cell_exprs(r.sub_index_reverse.limbs@), 16))),
                at(RowScope::All, "Constrain cell to be a bool", e_boolean(e_cell(r.sub_index_lt.lt))),
                at(RowScope::All, "lhs - rhs == diff - (lt ⋅ range)", e_lt_poly(e_cell(rotate(r.stack_pop_sub_index_reverse, -1)),
                    e_cell(r.stack_pop_sub_index_reverse), r.sub_index_lt.lt, r.sub_index_lt.diff@, 16)),
            ] + equality_constraints(STAGE1, EQ, old(cb).curr, old(cb).next_column as int, r.sub_index_reverse.limbs@,
                r.sub_index_lt.lt, r.rlc1_rlc2_eq.is_zero, old(cb).row_randomness, old(cb).column_randomness),
            STAGE1 ==> final(cb).requirements@.len() == old(cb).requirements@.len() + 7,
            STAGE1 ==> final(cb).requirements@.take(old(cb).requirements@.len() as int + 6)
                == old(cb).requirements@ + equality_requirements(true),
            STAGE1 ==> states_record(final(cb).requirements@[old(cb).requirements@.len() as int + 6], RowScope::Last, None,
                true, seq![equality_stage(EQ, false)]),
            !STAGE1 ==> final(cb).requirements@.len() == old(cb).requirements@.len() + 6,
            !STAGE1 ==> final(cb).requirements@.take(old(cb).requirements@.len() as int) == old(cb).requirements@,
            !STAGE1 ==> states_record(final(cb).requirements@[old(cb).requirements@.len() as int], RowScope::First, None,
                false, seq![equality_stage(EQ, true)]),
            !STAGE1 ==> final(cb).requirements@.skip(old(cb).requirements@.len() as int + 1) == equality_requirements(false),
    {
        let s = cb.curr;
        let row_randomness = cb.row_randomness();
        let column_randomness = cb.column_randomness();
        let ghost c = cb.next_column as int;
        let rlc1 = cb.query_cell();
        let rlc2 = cb.query_cell();
        let stack_pop_sub_index_reverse = cb.query_cell();
        let stack_pop_sub_index_reverse_prev = stack_pop_sub_index_reverse.at_offset(-1);
        let ghost l0 = cb.lookups@;
        let sub_index_reverse = SubIndexReverse::<8>::construct(cb, s.stack_pop_sub_index.expr());
        let ghost l1 = cb.lookups@;
        let sub_index_lt = LtGadget::<16>::construct(
            cb,
            stack_pop_sub_index_reverse_prev.expr(),
            stack_pop_sub_index_reverse.expr(),
        );
        let rlc1_rlc2_eq = IsZeroGadget::construct(cb, Expression::sub(rlc1.expr(), rlc2.expr()));
        let ghost c0 = cb.constraints@;
        let k0 = cb.requirements.len();

        let fields = vec![
            s.stack_pop_sub_index.expr(),
            s.stack_pop_value_header.expr(),
            s.stack_pop_value.cells[0].expr(),
            s.stack_pop_value.cells[1].expr(),
        ];
        let pop_rlc = Expression::rlc(&fields, &row_randomness);
        proof {
            assert(fields@ =~= seq![e_cell(s.stack_pop_sub_index), e_cell(s.stack_pop_value_header),
                e_cell(s.stack_pop_value.cells[0]), e_cell(s.stack_pop_value.cells[1])]);
        }

        let prev = cb.scope_begin(RowScope::First);
        if !STAGE1 {
            let st = if EQ { ExecutionState::EqStage1 } else { ExecutionState::NeqStage1 };
            cb.require_prev_state(st);
        }
        let ghost m0 = cb.requirements@;
        let op = if EQ { Opcode::Eq } else { Opcode::Neq };
        let ops = [op];
        cb.require_in_set("opcode in OPCODES", s.opcode.expr(), opcode_exprs(&ops));
        cb.require_zero("stack_pop_sub_index(0) == 0", s.stack_pop_sub_index.expr());
        let cnd = cb.condition_begin(s.stack_pop_value_header.expr());
        cb.require_equal(
            "step_counter(0) == stack_pop_value(0).as_header().flen",
            s.step_counter.expr(),
            s.stack_pop_value.as_header().flen(),
        );
        cb.condition_end(cnd);
        let cnd = cb.condition_begin(Expression::not(s.stack_pop_value_header.expr()));
        cb.require_equal("step_counter(0) == 1", s.step_counter.expr(), Expression::constant(1));
        cb.condition_end(cnd);
        cb.require_zero("stack_pop_sub_index_reverse(0) == 0", stack_pop_sub_index_reverse.expr());
        if STAGE1 {
            cb.require_equal("rlc1(0) == stack_pop_rlc", rlc1.expr(), pop_rlc.copy());
        } else {
            cb.require_equal("rlc2(0) == stack_pop_rlc", rlc2.expr(), pop_rlc.copy());
        }
        cb.scope_end(prev);

        let prev = cb.scope_begin(RowScope::NotFirst);
        cb.require_equal(
            "stack_pop_sub_index_reverse(0) == SubIndexReverse::expr(stack_pop_sub_index(0))",
            stack_pop_sub_index_reverse.expr(),
            sub_index_reverse.expr(),
        );
        cb.require_true("stack_pop_sub_index_reverse(-1) < stack_pop_sub_index_reverse(0)", sub_index_lt.expr());
        let acc = if STAGE1 { rlc1 } else { rlc2 };
        let acc_prev = acc.at_offset(-1).expr();
        let terms = vec![pop_rlc, acc_prev];
        let acc_curr = Expression::rlc(&terms, &column_randomness);
        let name = if STAGE1 { "rlc1(0) == gamma^4 * rlc1(-1) + stack_pop_rlc" } else { "rlc2(0) == gamma^4 * rlc2(-1) + stack_pop_rlc" };
        cb.require_equal(name, acc.expr(), acc_curr);
        cb.scope_end(prev);

        cb.require_equal("stack_pop_index(0) == sp(0)", s.stack_pop_index.expr(), s.sp.expr());
        cb.require_no_local_op();
        if !STAGE1 {
            cb.require_equal("rlc1(0) == rlc1(-1)", rlc1.expr(), rlc1.at_offset(-1).expr());
        }

        let prev = cb.scope_begin(RowScope::NotLast);
        cb.require_no_stack_push();
        cb.require_state_transition(StateField::Sp, Transition::Same);
        cb.scope_end(prev);

        let prev = cb.scope_begin(RowScope::Last);
        if STAGE1 {
            cb.require_no_stack_push();
            cb.require_state_transition(StateField::Sp, Transition::Delta(Expression::neg(Expression::constant(1))));
            cb.require_state_transition(StateField::Pc, Transition::Same);
            let st = if EQ { ExecutionState::EqStage2 } else { ExecutionState::NeqStage2 };
            cb.require_next_state(st);
        } else {
            cb.require_equal("stack_push_index(0) == sp(0)", s.stack_push_index.expr(), s.sp.expr());
            cb.require_zero("stack_push_sub_index(0) == 0", s.stack_push_sub_index.expr());
            cb.require_boolean("stack_push_value(0) == true | false", s.stack_push_value.expr());
            cb.require_zero("stack_push_value_header(0) == false", s.stack_push_value_header.expr());
            cb.require_equal("stack_push_version(0) == clk(0)", s.stack_push_version.expr(), s.clk.expr());
            if EQ {
                let cnd = cb.condition_begin(s.stack_push_value.expr());
                cb.require_equal("rlc1(0) == rlc2(0)", rlc1.expr(), rlc2.expr());
                cb.condition_end(cnd);
                let cnd = cb.condition_begin(Expression::not(s.stack_push_value.expr()));
                cb.require_zero("rlc1(0) != rlc2(0)", rlc1_rlc2_eq.expr());
                cb.condition_end(cnd);
            } else {
                let cnd = cb.condition_begin(s.stack_push_value.expr());
                cb.require_zero("rlc1(0) != rlc2(0)", rlc1_rlc2_eq.expr());
                cb.condition_end(cnd);
                let cnd = cb.condition_begin(Expression::not(s.stack_push_value.expr()));
                cb.require_equal("rlc1(0) == rlc2(0)", rlc1.expr(), rlc2.expr());
                cb.condition_end(cnd);
            }
            cb.require_state_transition(StateField::Sp, Transition::Same);
            cb.require_state_transition(StateField::Pc, Transition::Delta(Expression::constant(1)));
        }
        cb.scope_end(prev);
        proof {
            let k = k0 as int;
            assert(ops@ =~= seq![equality_opcode(EQ)]);
            assert(cb.constraints@ =~= c0 + equality_constraints(STAGE1, EQ, s, c, sub_index_reverse.limbs@,
                sub_index_lt.lt, rlc1_rlc2_eq.is_zero, old(cb).row_randomness, old(cb).column_randomness));
            assert(c0 =~= old(cb).constraints@ + seq![
                at(RowScope::All, "sub_index == from_limbs(limbs)", e_sub(e_cell(s.stack_pop_sub_index),
                    e_from_limbs(cell_exprs(sub_index_reverse.limbs@), 16))),
                at(RowScope::All, "Constrain cell to be a bool", e_boolean(e_cell(sub_index_lt.lt))),
                at(RowScope::All, "lhs - rhs == diff - (lt ⋅ range)", e_lt_poly(e_cell(rotate(stack_pop_sub_index_reverse, -1)),
                    e_cell(stack_pop_sub_index_reverse), sub_index_lt.lt, sub_index_lt.diff@, 16)),
            ]);
            assert(cb.lookups@.take(l0.len() as int + 8) =~= l1);
            assert(cb.lookups@.take(l0.len() as int) =~= l0) by {
                assert(cb.lookups@.take(l0.len() as int) =~= l1.take(l0.len() as int));
            }
            assert(cb.lookups@.subrange(l0.len() as int, l0.len() as int + 8) =~= l1.skip(l0.len() as int));
            if STAGE1 {
                assert(m0 == old(cb).requirements@);
                assert(cb.requirements@.drop_last() =~= old(cb).requirements@ + equality_requirements(true));
                assert(cb.requirements@.take(k + 6) =~= cb.requirements@.drop_last());
            } else {
                assert(m0.drop_last() == old(cb).requirements@);
                assert(cb.requirements@ =~= m0 + equality_requirements(false));
                assert(cb.requirements@.take(k) =~= m0.drop_last());
                assert(cb.requirements@[k] == m0[k]);
                assert(cb.requirements@.skip(k + 1) =~= equality_requirements(false));
            }
        }
        Equality { rlc1, rlc2, stack_pop_sub_index_reverse, sub_index_reverse, sub_index_lt, rlc1_rlc2_eq }
    }
}


/// The eight 16-bit limbs of a sub index, lowest first.
pub open spec fn sub_index_digits(sub_index: u128) -> Seq<int> {
    Seq::new(8, |k: int| crate::bytes::digit(sub_index as nat, 16, k as nat) as int)
}

/// The witness of one row of `Equality`.
#[derive(Debug)]
pub struct EqualityRow {
    /// The 16-bit limbs of the popped sub index.
    pub sub_index_limbs: Vec<Fe>,
    pub stack_pop_sub_index_reverse: Fe,
    /// `lt` and the diff bytes of the comparison with the previous row.
    pub sub_index_lt: (Fe, Vec<u8>),
    pub rlc1: Fe,
    pub rlc2: Fe,
    /// The inverse and the result of the zero test of `rlc1 - rlc2`.
    pub rlc1_rlc2_eq: (Fe, Fe),
}

/// The combination of one popped limb by the row challenge `r`.
pub open spec fn pop_rlc_value(op: StackOp, r: int) -> int {
    rlc_value(seq![op.sub_index as int, if op.value_header { 1int } else { 0int }, op.value[0] as int,
        op.value[1] as int], r)
}

/// The combinations of the popped limbs folded by the column challenge `g`,
/// the last one first: `pop(n - 1) + g * (pop(n - 2) + g * ...)`.
pub open spec fn folded_rlc(ops: Seq<StackOp>, r: int, g: int) -> int
    decreases ops.len(),
{
    if ops.len() == 0 { 0 } else { pop_rlc_value(ops.last(), r) + g * folded_rlc(ops.drop_last(), r, g) }
}

/// `row` is the witness of the row that pops `op`: `prev_reverse` is the
/// reversed sub index of the row before (zero before the first row), `acc`
/// the combination folded up to this row, and `rlc1` holds `prev_rlc1` in
/// the second stage.
pub open spec fn equality_row(row: EqualityRow, op: StackOp, prev_reverse: int, acc: int, stage1: bool,
    prev_rlc1: Fe) -> bool {
    &&& row.sub_index_limbs@.len() == 8
    &&& forall|k: int| 0 <= k < 8 ==> #[trigger] row.sub_index_limbs@[k].val()
        == crate::bytes::digit(op.sub_index as nat, 16, k as nat)
    &&& row.stack_pop_sub_index_reverse.val() == reversed_value(sub_index_digits(op.sub_index))
    &&& row.sub_index_lt.0.val() == (if prev_reverse < row.stack_pop_sub_index_reverse.val() { 1nat } else { 0nat })
    &&& row.sub_index_lt.1@.len() == 32
    &&& le_value(row.sub_index_lt.1@) == (prev_reverse - row.stack_pop_sub_index_reverse.val()
        + row.sub_index_lt.0.val() * pow2(128)) % (modulus() as int)
    &&& stage1 ==> row.rlc1.val() == acc && row.rlc2.val() == 0
    &&& !stage1 ==> row.rlc1 == prev_rlc1 && row.rlc2.val() == acc
    &&& row.rlc1_rlc2_eq.1.val() == (if row.rlc1.val() == row.rlc2.val() { 1nat } else { 0nat })
    &&& zero_test(field_diff(row.rlc1.val(), row.rlc2.val()), row.rlc1_rlc2_eq)
}

/// The reversed sub index of the row before row `i` of `rows`, zero before
/// the first.
pub open spec fn previous_reverse(rows: Seq<EqualityRow>, i: int) -> int {
    if i == 0 { 0 } else { rows[i - 1].stack_pop_sub_index_reverse.val() as int }
}

impl<const STAGE1: bool, const EQ: bool> Equality<STAGE1, EQ> {
    /// The witness of the rows that pop `ops`: the limbs of each sub index,
    /// its limbs read backwards, the comparison with the previous row's
    /// reversal (zero before the first row), and the combinations folded so
    /// far, in `rlc1` for the first stage and in `rlc2` for the second, where
    /// `rlc1` keeps `prev_rlc1`, that of the first value.
    #[verifier::rlimit(100)]
    pub fn assign(&self, ops: &Vec<StackOp>, row_randomness: &Fe, column_randomness: &Fe, prev_rlc1: &Fe)
        -> (r: Vec<EqualityRow>)
        requires
            self.sub_index_lt.range.val() == vstd::arithmetic::power2::pow2(128),
        ensures
            r@.len() == ops@.len(),
            forall|i: int| 0 <= i < r@.len() ==> equality_row(#[trigger] r@[i], ops@[i], previous_reverse(r@, i),
                folded_rlc(ops@.take(i + 1), row_randomness.val() as int, column_randomness.val() as int)
                    % (modulus() as int), STAGE1, *prev_rlc1),
    {
        let mut rows: Vec<EqualityRow> = Vec::new();
        let mut prev_reverse = Fe::zero();
        let mut prev_rlc = Fe::zero();
        let mut i: usize = 0;
        while i < ops.len()
            invariant
                i <= ops@.len(),
                rows@.len() == i,
                self.sub_index_lt.range.val() == vstd::arithmetic::power2::pow2(128),
                prev_rlc.val() == folded_rlc(ops@.take(i as int), row_randomness.val() as int,
                    column_randomness.val() as int) % (modulus() as int),
                i == 0 ==> prev_reverse.val() == 0,
                i > 0 ==> prev_reverse == rows@[i - 1].stack_pop_sub_index_reverse,
                forall|j: int| 0 <= j < i ==> equality_row(#[trigger] rows@[j], ops@[j], previous_reverse(rows@, j),
                    folded_rlc(ops@.take(j + 1), row_randomness.val() as int, column_randomness.val() as int)
                        % (modulus() as int), STAGE1, *prev_rlc1),
            decreases ops.len() - i,
        {
            let op = ops[i];
            let sub_index_limbs = self.sub_index_reverse.assign(op.sub_index);
            let v_reverse = Fe::from_u128(reverse_sub_index(op.sub_index));
            let sub_index_lt = self.sub_index_lt.assign(&prev_reverse, &v_reverse);
            let fields = vec![
                Fe::from_u128(op.sub_index),
                Fe::from_bool(op.value_header),
                Fe::from_u128(op.value[0]),
                Fe::from_u128(op.value[1]),
            ];
            let stack_pop_rlc = fe_rlc(&fields, row_randomness);
            let pair = vec![stack_pop_rlc, prev_rlc];
            let current = fe_rlc(&pair, column_randomness);
            proof {
                let r = row_randomness.val() as int;
                let g = column_randomness.val() as int;
                assert(fe_vals(fields@) =~= seq![op.sub_index as int, if op.value_header { 1int } else { 0int },
                    op.value[0] as int, op.value[1] as int]);
                assert(fe_vals(pair@) =~= seq![stack_pop_rlc.val() as int, prev_rlc.val() as int]);
                lemma_fold_step(ops@, i as int, r, g, stack_pop_rlc.val() as int, prev_rlc.val() as int, current.val() as int);
            }
            let (rlc1, rlc2) = if STAGE1 { (current, Fe::zero()) } else { (*prev_rlc1, current) };
            let diff = fe_sub(&rlc1, &rlc2);
            let rlc1_rlc2_eq = self.rlc1_rlc2_eq.assign(&diff);
            proof {
                crate::field::lemma_val_bound(rlc1);
                crate::field::lemma_val_bound(rlc2);
                crate::field::lemma_sub_zero(rlc1.val() as int, rlc2.val() as int);
            }
            let row = EqualityRow {
                sub_index_limbs,
                stack_pop_sub_index_reverse: v_reverse,
                sub_index_lt,
                rlc1,
                rlc2,
                rlc1_rlc2_eq,
            };
            proof {
                assert(equality_row(row, ops@[i as int], previous_reverse(rows@, i as int),
                    folded_rlc(ops@.take(i + 1), row_randomness.val() as int, column_randomness.val() as int)
                        % (modulus() as int), STAGE1, *prev_rlc1));
            }
            let ghost old_rows = rows@;
            rows.push(row);
            proof {
                assert forall|j: int| 0 <= j < i + 1 implies previous_reverse(rows@, j) == previous_reverse(old_rows.push(row), j) by {}
                assert forall|j: int| 0 <= j < i implies previous_reverse(rows@, j) == previous_reverse(old_rows, j) by {}
            }
            prev_reverse = v_reverse;
            prev_rlc = current;
            i = i + 1;
        }
        rows
    }
}


/// One more popped limb folds into the combination.
proof fn lemma_fold_step(ops: Seq<StackOp>, i: int, r: int, g: int, pop: int, prev: int, cur: int)
    requires
        0 <= i < ops.len(),
        pop == rlc_value(seq![ops[i].sub_index as int, if ops[i].value_header { 1int } else { 0int },
            ops[i].value[0] as int, ops[i].value[1] as int], r) % (modulus() as int),
        prev == folded_rlc(ops.take(i), r, g) % (modulus() as int),
        cur == rlc_value(seq![pop, prev], g) % (modulus() as int),
    ensures
        cur == folded_rlc(ops.take(i + 1), r, g) % (modulus() as int),
{
    let p = modulus() as int;
    let pv = pop_rlc_value(ops[i], r);
    let f = folded_rlc(ops.take(i), r, g);
    assert(ops.take(i + 1).drop_last() =~= ops.take(i));
    assert(ops.take(i + 1).last() == ops[i]);
    assert(folded_rlc(ops.take(i + 1), r, g) == pv + g * f);
    let s2 = seq![pop, prev];
    assert(s2.drop_first().drop_first().len() == 0);
    assert(rlc_value(s2.drop_first().drop_first(), g) == 0);
    assert(rlc_value(s2.drop_first(), g) == prev + g * 0);
    assert(g * 0 == 0);
    assert(cur == (pop + g * prev) % p);
    vstd::arithmetic::div_mod::lemma_mul_mod_noop_right(g, f, p);
    vstd::arithmetic::div_mod::lemma_add_mod_noop(pv, g * f, p);
    vstd::arithmetic::div_mod::lemma_add_mod_noop(pv, g * (f % p), p);
    vstd::arithmetic::div_mod::lemma_mod_twice(g * f, p);
    vstd::arithmetic::div_mod::lemma_mod_twice(pv, p);
}

/// The comparison that the second stage pushes: in a prime field, at its
/// last row, where the boolean constraint on the pushed value and the two
/// constraints on the result hold, `Eq` pushes `1` (in the field) exactly
/// when the two combinations `rlc1` and `rlc2` agree in the field, and `Neq`
/// exactly when they differ; otherwise it pushes `0`. The zero test needs no
/// checks here: on a zero difference it is `1` whatever its inverse cell
/// holds.
pub proof fn lemma_equality_result(eq: bool, s: StepState, c: int, limbs: Seq<Cell>, lt: Cell, inverse: Cell,
    row_randomness: Cell, column_randomness: Cell, w: Witness, row: int)
    requires
        field_is_prime(),
        ({
            let cs = equality_constraints(false, eq, s, c, limbs, lt,
                e_is_zero(e_sub(e_cell(cell_at(c)), e_cell(cell_at(c + 1))), inverse), row_randomness, column_randomness);
            &&& eval(cs[13].poly, w, row) % (modulus() as int) == 0
            &&& eval(cs[16].poly, w, row) % (modulus() as int) == 0
            &&& eval(cs[17].poly, w, row) % (modulus() as int) == 0
        }),
    ensures
        ({
            let p = modulus() as int;
            let pv = eval(s.stack_push_value.spec_expr(), w, row) % p;
            let same = eval(e_cell(cell_at(c)), w, row) % p == eval(e_cell(cell_at(c + 1)), w, row) % p;
            &&& pv == 0 || pv == 1
            &&& (pv == 1) == (eq == same)
        }),
{
    let p = modulus() as int;
    lemma_modulus_bounds();
    reveal_with_fuel(eval, 4);
    let cs = equality_constraints(false, eq, s, c, limbs, lt,
        e_is_zero(e_sub(e_cell(cell_at(c)), e_cell(cell_at(c + 1))), inverse), row_randomness, column_randomness);
    let pv = eval(s.stack_push_value.spec_expr(), w, row);
    let a = eval(e_cell(cell_at(c)), w, row);
    let b = eval(e_cell(cell_at(c + 1)), w, row);
    let iv = eval(e_cell(inverse), w, row);
    let z = 1 - (a - b) * iv;
    assert(eval(e_is_zero(e_sub(e_cell(cell_at(c)), e_cell(cell_at(c + 1))), inverse), w, row) == z);
    // the pushed value is a bit in the field
    assert(cs[13].poly == e_boolean(s.stack_push_value.spec_expr()));
    assert(eval(cs[13].poly, w, row) == pv * (1 - pv));
    assert(field_product(pv, 1 - pv) == 0);
    lemma_small_mod(1, p as nat);
    lemma_fundamental_div_mod(pv, p);
    lemma_fundamental_div_mod(1 - pv, p);
    if pv % p == 0 {
        lemma_mod_multiples_vanish(-(pv / p), 1, p);
        assert(1 - pv == 1 + p * (-(pv / p)));
        assert((1 - pv) % p == 1);
    } else {
        assert((1 - pv) % p == 0);
        lemma_mod_multiples_vanish(-((1 - pv) / p), 1, p);
        assert(pv == 1 + p * (-((1 - pv) / p)));
        assert(pv % p == 1);
    }
    // the same residue exactly when the difference vanishes
    lemma_fundamental_div_mod(a - b, p);
    lemma_mod_multiples_vanish((a - b) / p, b, p);
    lemma_sub_mod_noop(a, b, p);
    lemma_mod_self_0(p);
    assert((a % p == b % p) == ((a - b) % p == 0));
    // a vanishing difference makes the zero test 1
    lemma_mul_mod_noop_left(a - b, iv, p);
    lemma_sub_mod_noop(1, (a - b) * iv, p);
    if (a - b) % p == 0 {
        assert(((a - b) % p) * iv == 0);
        assert(z % p == 1);
    }
    if eq {
        assert(eval(cs[16].poly, w, row) == pv * (a - b));
        assert(eval(cs[17].poly, w, row) == (1 - pv) * z);
        if pv % p == 1 {
            lemma_unit_factor(pv, a - b);
        } else {
            lemma_unit_factor(1 - pv, z);
        }
    } else {
        assert(eval(cs[16].poly, w, row) == pv * z);
        assert(eval(cs[17].poly, w, row) == (1 - pv) * (a - b));
        if pv % p == 1 {
            lemma_unit_factor(pv, z);
        } else {
            lemma_unit_factor(1 - pv, a - b);
        }
    }
}

} // verus!
