use vstd::prelude::*;
use crate::builder::{Constraint, ConstraintBuilder, RowScope, Requirement, Transition, at, byte_range_records, req,
    transition_records};
use crate::executions::add_sub::{cell_at, cells_from};
use crate::math_gadgets::is_zero::{IsZeroGadget, e_is_zero, zero_test};
use crate::bytes::digit;
use crate::expr::{Cell, Expression, Witness, cell_exprs, e_cell, e_const, e_from_limbs, e_neg, e_sub, eval, evals,
    lemma_eval_from_limbs, weighted_sum};
use crate::math_gadgets::add::lemma_small_int_mod_zero;
use crate::math_gadgets::lt::lemma_bytes_weighted_sum_bound;
use crate::math_gadgets::range_check::lemma_range_check_complete;
use vstd::arithmetic::div_mod::{lemma_mod_multiples_vanish, lemma_small_mod, lemma_sub_mod_noop};
use vstd::arithmetic::power2::{lemma2_to64, lemma_pow2_adds, lemma_pow2_strictly_increases, pow2};
use crate::field::{Fe, fe_sub, lemma_modulus_bounds, modulus};
use crate::math_gadgets::range_check::RangeCheckGadget;
use crate::step::{StateField, StepState};

verus! {

/// The constraints that every execution stage shares.
#[derive(Debug)]
pub struct BaseConstraintGadget {
    pub stack_pop_version_range_check: RangeCheckGadget<4>,
    pub local_read_version_range_check: RangeCheckGadget<4>,
    /// Requires `clk != stack_pop_version`.
    pub stack_pop_version_gap: IsZeroGadget,
    /// Requires `clk != local_read_version`.
    pub local_read_version_gap: IsZeroGadget,
}

/// The witness of `BaseConstraintGadget` on one row: the four bytes of each
/// version gap `clk - version` and the zero test of each gap.
#[derive(Debug)]
pub struct BaseWitness {
    pub stack_pop_version_parts: Vec<u8>,
    pub local_read_version_parts: Vec<u8>,
    pub stack_pop_version_gap: (Fe, Fe),
    pub local_read_version_gap: (Fe, Fe),
}

/// The step fields that keep their value from row to row inside a stage.
pub open spec fn same_within_stage() -> Seq<(StateField, Transition)> {
    seq![
        (StateField::FrameIndex, Transition::Same),
        (StateField::ModuleIndex, Transition::Same),
        (StateField::FunctionIndex, Transition::Same),
        (StateField::Opcode, Transition::Same),
        (StateField::Pc, Transition::Same),
        (StateField::Aux0, Transition::Same),
        (StateField::Aux1, Transition::Same),
    ]
}

/// `clk - version` in the field, for residues `clk` and `version`.
pub open spec fn version_gap(clk: nat, version: nat) -> nat {
    (clk + modulus() - version) as nat % modulus()
}

/// `clk - version` set against the composed bytes of its range check.
pub open spec fn e_version_recomposed(clk: Expression, version: Expression, parts: Seq<Cell>) -> Expression {
    e_sub(e_sub(clk, version), e_from_limbs(cell_exprs(parts), 8))
}

/// `1 - (clk - version) * inverse`: zero exactly when the inverse cell holds
/// an inverse of the gap, so that the gap is not zero.
pub open spec fn e_version_gap_is_zero(clk: Expression, version: Expression, inverse: Cell) -> Expression {
    e_is_zero(e_sub(clk, version), inverse)
}

/// The constraints of `BaseConstraintGadget` on the step `s`, with its cells
/// from column `c`: the bytes of the two gaps (`c ..`, `c + 4 ..`) and the
/// inverses of the two gaps (`c + 8`, `c + 9`).
pub open spec fn base_constraints(s: StepState, c: int) -> Seq<Constraint> {
    let clk = e_cell(s.clk);
    let spv = e_cell(s.stack_pop_version);
    let lrv = e_cell(s.local_read_version);
    seq![
        at(RowScope::Last, "step_counter(0)==1", e_sub(e_cell(s.step_counter), e_const(1))),
        at(RowScope::All, "Constrain bytes recomposited to value", e_version_recomposed(clk, spv, cells_from(c, 4))),
        at(RowScope::All, "Constrain bytes recomposited to value", e_version_recomposed(clk, lrv, cells_from(c + 4, 4))),
        at(RowScope::All, "stack_pop_version(0) != clk(0)", e_version_gap_is_zero(clk, spv, cell_at(c + 8))),
        at(RowScope::All, "local_read_version(0) != clk(0)", e_version_gap_is_zero(clk, lrv, cell_at(c + 9))),
    ]
}

impl BaseConstraintGadget {
    /// Common constraint for every opcode: the step counter counts the rows of
    /// the stage down to `1`, the location and operands stay the same inside
    /// the stage, and the versions read are below the clock: their gap to it
    /// fits four bytes and is not zero.
    pub fn configure(cb: &mut ConstraintBuilder) -> (r: BaseConstraintGadget)
        requires
            old(cb).wf(),
            old(cb).scope == RowScope::All,
            old(cb).condition is None,
            old(cb).has_room(10),
        ensures
            final(cb).wf(),
            final(cb).scope == RowScope::All,
            final(cb).condition is None,
            final(cb).curr == old(cb).curr,
            final(cb).next_column == old(cb).next_column + 10,
            r.stack_pop_version_range_check.parts@ == cells_from(old(cb).next_column as int, 4),
            r.local_read_version_range_check.parts@ == cells_from(old(cb).next_column + 4, 4),
            r.stack_pop_version_gap.inverse == cell_at(old(cb).next_column + 8),
            r.local_read_version_gap.inverse == cell_at(old(cb).next_column + 9),
            r.stack_pop_version_gap.is_zero == e_version_gap_is_zero(e_cell(old(cb).curr.clk),
                e_cell(old(cb).curr.stack_pop_version), cell_at(old(cb).next_column + 8)),
            r.local_read_version_gap.is_zero == e_version_gap_is_zero(e_cell(old(cb).curr.clk),
                e_cell(old(cb).curr.local_read_version), cell_at(old(cb).next_column + 9)),
            final(cb).constraints@ == old(cb).constraints@ + base_constraints(old(cb).curr, old(cb).next_column as int),
            final(cb).requirements@ == old(cb).requirements@
                + seq![req(RowScope::NotLast, None, Requirement::StateTransition(StateField::StepCounter, Transition::Delta(e_neg(e_const(1)))))]
                + transition_records(RowScope::NotLast, None, same_within_stage()),
            final(cb).lookups@.take(old(cb).lookups@.len() as int) == old(cb).lookups@,
            byte_range_records(
                final(cb).lookups@.skip(old(cb).lookups@.len() as int).take(4),
                r.stack_pop_version_range_check.parts@, RowScope::All, None),
            byte_range_records(
                final(cb).lookups@.skip(old(cb).lookups@.len() as int + 4),
                r.local_read_version_range_check.parts@, RowScope::All, None),
    {
        let s = cb.curr;
        let ghost c = cb.next_column as int;
        let ghost k0 = cb.constraints@;
        let prev = cb.scope_begin(RowScope::Last);
        cb.require_equal("step_counter(0)==1", s.step_counter.expr(), Expression::constant(1));
        cb.scope_end(prev);

        let prev = cb.scope_begin(RowScope::NotLast);
        cb.require_state_transition(StateField::StepCounter, Transition::Delta(Expression::neg(Expression::constant(1))));
        cb.require_state_transitions(vec![
            (StateField::FrameIndex, Transition::Same),
            (StateField::ModuleIndex, Transition::Same),
            (StateField::FunctionIndex, Transition::Same),
            (StateField::Opcode, Transition::Same),
            (StateField::Pc, Transition::Same),
            (StateField::Aux0, Transition::Same),
            (StateField::Aux1, Transition::Same),
        ]);
        cb.scope_end(prev);
        let ghost l0 = cb.lookups@;

        // stack_pop_version(0) < clk(0)
        let stack_pop_version_range_check = RangeCheckGadget::<4>::construct(
            cb,
            Expression::sub(s.clk.expr(), s.stack_pop_version.expr()),
        );
        let ghost l1 = cb.lookups@;
        // local_read_version(0) < clk(0)
        let local_read_version_range_check = RangeCheckGadget::<4>::construct(
            cb,
            Expression::sub(s.clk.expr(), s.local_read_version.expr()),
        );
        let stack_pop_version_gap = IsZeroGadget::construct(cb, Expression::sub(s.clk.expr(), s.stack_pop_version.expr()));
        let local_read_version_gap = IsZeroGadget::construct(cb, Expression::sub(s.clk.expr(), s.local_read_version.expr()));
        cb.require_zero("stack_pop_version(0) != clk(0)", stack_pop_version_gap.expr());
        cb.require_zero("local_read_version(0) != clk(0)", local_read_version_gap.expr());
        proof {
            assert(l1.skip(l0.len() as int).len() == 4);
            assert(l1.len() == l0.len() + 4);
            assert(cb.lookups@.take(l1.len() as int) == l1);
            assert forall|i: int| 0 <= i < 4 implies l1.skip(l0.len() as int)[i] == cb.lookups@.skip(l0.len() as int).take(4)[i] by {
                assert(l1[l0.len() + i] == cb.lookups@.take(l1.len() as int)[l0.len() + i]);
            }
            assert(l1.skip(l0.len() as int) =~= cb.lookups@.skip(l0.len() as int).take(4));
            assert(cb.lookups@.skip(l0.len() as int + 4) =~= cb.lookups@.skip(l1.len() as int));
            assert(cb.lookups@.take(l0.len() as int) =~= l1.take(l0.len() as int));
            assert(stack_pop_version_range_check.parts@ =~= cells_from(c, 4));
            assert(local_read_version_range_check.parts@ =~= cells_from(c + 4, 4));
            assert(cb.constraints@ =~= k0 + base_constraints(s, c));
        }
        BaseConstraintGadget {
            stack_pop_version_range_check,
            local_read_version_range_check,
            stack_pop_version_gap,
            local_read_version_gap,
        }
    }

    /// The witness: the first four bytes of `clk - stack_pop_version` and of
    /// `clk - local_read_version` in the field, and the zero tests of both.
    pub fn assign(&self, clk: &Fe, stack_pop_version: &Fe, local_read_version: &Fe) -> (r: BaseWitness)
        ensures
            r.stack_pop_version_parts@.len() == 4,
            r.local_read_version_parts@.len() == 4,
            forall|i: int| 0 <= i < 4 ==> r.stack_pop_version_parts@[i] as nat == #[trigger] digit(
                version_gap(clk.val(), stack_pop_version.val()), 8, i as nat),
            forall|i: int| 0 <= i < 4 ==> r.local_read_version_parts@[i] as nat == #[trigger] digit(
                version_gap(clk.val(), local_read_version.val()), 8, i as nat),
            zero_test(version_gap(clk.val(), stack_pop_version.val()), r.stack_pop_version_gap),
            zero_test(version_gap(clk.val(), local_read_version.val()), r.local_read_version_gap),
    {
        let da = fe_sub(clk, stack_pop_version);
        let db = fe_sub(clk, local_read_version);
        let a = self.stack_pop_version_range_check.assign(&da);
        let b = self.local_read_version_range_check.assign(&db);
        BaseWitness {
            stack_pop_version_parts: a,
            local_read_version_parts: b,
            stack_pop_version_gap: self.stack_pop_version_gap.assign(&da),
            local_read_version_gap: self.local_read_version_gap.assign(&db),
        }
    }
}

/// The range check of a version read proves it is older than the clock:
/// when the recomposition constraint and the nonzero constraint of
/// `configure` hold in the field, the four parts are bytes and the clock and
/// the version are below `2^253` (far below the field order),
/// `version < clk < version + 2^32`.
pub proof fn lemma_version_below_clock(clk: Expression, version: Expression, parts: Seq<Cell>, inverse: Cell,
    w: Witness, row: int)
    requires
        parts.len() == 4,
        forall|i: int| 0 <= i < 4 ==> 0 <= #[trigger] eval(e_cell(parts[i]), w, row) < 256,
        eval(e_version_recomposed(clk, version, parts), w, row) % (modulus() as int) == 0,
        eval(e_version_gap_is_zero(clk, version, inverse), w, row) % (modulus() as int) == 0,
        0 <= eval(clk, w, row) < pow2(253),
        0 <= eval(version, w, row) < pow2(253),
    ensures
        eval(version, w, row) < eval(clk, w, row) < eval(version, w, row) + pow2(32),
{
    let p = modulus() as int;
    lemma_modulus_bounds();
    lemma_eval_from_limbs(cell_exprs(parts), 8, w, row);
    let ds = evals(cell_exprs(parts), w, row);
    assert forall|i: int| 0 <= i < 4 implies 0 <= #[trigger] ds[i] < 256 by {
        assert(ds[i] == eval(e_cell(parts[i]), w, row));
    }
    lemma_bytes_weighted_sum_bound(ds, 4);
    let d = weighted_sum(ds, 8);
    let c = eval(clk, w, row);
    let v = eval(version, w, row);
    reveal_with_fuel(eval, 4);
    assert(eval(e_version_recomposed(clk, version, parts), w, row) == c - v - d);
    lemma_pow2_strictly_increases(32, 253);
    lemma_pow2_strictly_increases(253, 254);
    lemma_pow2_adds(1, 253);
    assert(pow2(1) == 2) by { lemma2_to64(); }
    lemma_small_int_mod_zero(c - v - d, p);
    // a zero gap would make the nonzero constraint `1`
    if c == v {
        let iv = eval(e_cell(inverse), w, row);
        assert((c - v) * iv == 0) by (nonlinear_arith) requires c == v;
        assert(eval(e_version_gap_is_zero(clk, version, inverse), w, row) == 1 - (c - v) * iv);
        lemma_small_mod(1, p as nat);
    }
}

/// The witness of `assign` satisfies the constraints of `configure`
/// exactly: where the clock and the version are field values with
/// `version < clk < version + 2^32`, the parts hold the bytes and the inverse
/// cell the inverse that `assign` gives, `clk - version` equals the parts'
/// composed value and the nonzero constraint vanishes in the field.
pub proof fn lemma_version_witness(clk: Expression, version: Expression, parts: Seq<Cell>, inverse: Cell,
    bytes: Seq<u8>, gap: (Fe, Fe), w: Witness, row: int)
    requires
        parts.len() == 4,
        bytes.len() == 4,
        0 <= eval(clk, w, row) < modulus(),
        0 <= eval(version, w, row) < eval(clk, w, row) < eval(version, w, row) + pow2(32),
        forall|i: int| 0 <= i < 4 ==> bytes[i] as nat == #[trigger] digit(
            version_gap(eval(clk, w, row) as nat, eval(version, w, row) as nat), 8, i as nat),
        forall|i: int| 0 <= i < 4 ==> #[trigger] eval(e_cell(parts[i]), w, row) == bytes[i] as int,
        zero_test(version_gap(eval(clk, w, row) as nat, eval(version, w, row) as nat), gap),
        eval(e_cell(inverse), w, row) == gap.0.val(),
    ensures
        eval(e_version_recomposed(clk, version, parts), w, row) == 0,
        eval(e_version_gap_is_zero(clk, version, inverse), w, row) % (modulus() as int) == 0,
{
    let p = modulus() as int;
    lemma_modulus_bounds();
    let c = eval(clk, w, row);
    let v = eval(version, w, row);
    lemma_mod_multiples_vanish(1, c - v, p);
    lemma_pow2_strictly_increases(32, 254);
    lemma_small_mod((c - v) as nat, p as nat);
    assert(version_gap(c as nat, v as nat) == c - v);
    lemma_range_check_complete((c - v) as nat, bytes);
    lemma_eval_from_limbs(cell_exprs(parts), 8, w, row);
    assert(evals(cell_exprs(parts), w, row) =~= bytes.map_values(|b: u8| b as int));
    reveal_with_fuel(eval, 4);
    assert(eval(e_version_recomposed(clk, version, parts), w, row)
        == c - v - weighted_sum(evals(cell_exprs(parts), w, row), 8));
    // the inverse makes the gap's product `1`
    let iv = gap.0.val() as int;
    assert(eval(e_version_gap_is_zero(clk, version, inverse), w, row) == 1 - (c - v) * iv);
    assert(((c - v) * iv) % p == 1);
    lemma_sub_mod_noop(1, (c - v) * iv, p);
    lemma_small_mod(1, p as nat);
    assert(0int % p == 0);
}

} // verus!
