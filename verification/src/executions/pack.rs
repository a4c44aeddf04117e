use vstd::prelude::*;
use crate::builder::{Constraint, ConstraintBuilder, RequirementRecord, RowScope, Requirement, Transition, at, req,
    transition_records};
use crate::executions::add_sub::cell_at;
use crate::executions::common::minus_one;
use crate::expr::{Cell, Expression, Witness, e_add, e_and2, e_cell, e_const, e_mul, e_not, e_sub, eval};
use crate::executions::read_ref::lemma_equal_in_field;
use crate::math_gadgets::range_check::lemma_unit_factor;
use vstd::arithmetic::div_mod::{lemma_mul_mod_noop_left, lemma_small_mod, lemma_sub_mod_noop};
use crate::field::{Fe, fe_sub, field_diff, lemma_modulus_bounds, modulus};
use crate::math_gadgets::is_zero::{IsZeroGadget, e_is_zero, zero_test};
use crate::opcode::Opcode;
use crate::step::{StateField, StepState, rotate};
use crate::sub_index::DEPTH_POW_OF_ONE_LEVEL;

verus! {

/// `Pack` or `VecPack` (`VEC_PACK`) of `aux0` fields: the first row pushes the
/// header of the new value; each later row pops one flattened limb of a field
/// and pushes it under the field's sub index. `field_index` counts the fields
/// down from `aux0`, `field_counter` the limbs of the current field down to 1.
#[derive(Debug)]
pub struct Pack<const VEC_PACK: bool> {
    pub field_index: Cell,
    pub field_counter: Cell,
    pub is_zero_stack_pop_sub_index: IsZeroGadget,
    pub is_zero_num_field: IsZeroGadget,
    pub last_row: IsZeroGadget,
    pub last_row_of_field: IsZeroGadget,
}

pub open spec fn pack_opcode(vec_pack: bool) -> Opcode {
    if vec_pack { Opcode::VecPack } else { Opcode::Pack }
}

/// The selectors of `Pack` with its cells from column `c`: `(no field,
/// popped value is a top-level field, last row, last row of a field)`.
pub open spec fn pack_flags(s: StepState, c: int) -> (Expression, Expression, Expression, Expression) {
    (
        e_is_zero(e_cell(s.aux0), cell_at(c + 3)),
        e_is_zero(e_cell(s.stack_pop_sub_index), cell_at(c + 2)),
        e_is_zero(e_sub(e_cell(s.step_counter), e_const(1)), cell_at(c + 4)),
        e_is_zero(e_sub(e_cell(cell_at(c + 1)), e_const(1)), cell_at(c + 5)),
    )
}

/// The constraints of `Pack` with its cells allocated from column `c`:
/// `field_index` (`c`), `field_counter` (`c + 1`) and the inverses of the four
/// tests (`c + 2 ..= c + 5`).
pub open spec fn pack_constraints(vec_pack: bool, s: StepState, c: int) -> Seq<Constraint> {
    let n = s.spec_at_offset(1);
    let field_index = e_cell(cell_at(c));
    let field_counter = e_cell(cell_at(c + 1));
    let (no_field, top_level, _, _) = pack_flags(s, c);
    let push_index = e_sub(e_cell(s.stack_push_index), e_add(e_sub(e_cell(s.sp), e_cell(s.aux0)), e_const(1)));
    let header = e_cell(s.stack_pop_value_header);
    seq![
        at(RowScope::First, "opcode", e_sub(e_cell(s.opcode), e_const(pack_opcode(vec_pack).spec_index() as u128))),
        at(RowScope::First, "stack_push_index(0) == sp(0) - num_field + 1", push_index),
        at(RowScope::First, "stack_push_sub_index(0) == 0", e_cell(s.stack_push_sub_index)),
        at(RowScope::First, "stack_push_value(0).as_header().len() == num_field",
            e_sub(e_cell(s.stack_push_value.cells[1]), e_cell(s.aux0))),
        at(RowScope::First, "stack_push_value(0).as_header().flen() == step_counter(0)",
            e_sub(e_cell(s.stack_push_value.cells[0]), e_cell(s.step_counter))),
        at(RowScope::First, "stack_push_value_header(0) == true", e_sub(e_cell(s.stack_push_value_header), e_const(1))),
        at(RowScope::First, "stack_push_version(0) == clk(0)", e_sub(e_cell(s.stack_push_version), e_cell(s.clk))),
        at(RowScope::First, "field_index(1) == aux0(0)", e_mul(e_not(no_field), e_sub(e_cell(rotate(cell_at(c), 1)), e_cell(s.aux0)))),
        at(RowScope::First, "stack_pop_index(1) == sp(0)", e_mul(e_not(no_field), e_sub(e_cell(n.stack_pop_index), e_cell(s.sp)))),
        at(RowScope::First, "stack_pop_sub_index(1) == 0", e_mul(e_not(no_field), e_cell(n.stack_pop_sub_index))),
        at(RowScope::First, "step_counter(0) == 1", e_mul(no_field, e_sub(e_cell(s.step_counter), e_const(1)))),
        at(RowScope::NotFirst, "is_simple * (field_counter(0) - 1)",
            e_mul(top_level, e_mul(e_sub(e_const(1), header), e_sub(field_counter, e_const(1))))),
        at(RowScope::NotFirst, "is_header * (field_counter(0) - stack_pop_value(0).as_header().flen) == 0",
            e_mul(top_level, e_mul(header, e_sub(field_counter, e_cell(s.stack_pop_value.cells[0]))))),
        at(RowScope::NotFirst, "stack_push_index(0) == sp(0) - num_field + 1", push_index),
        at(RowScope::NotFirst, "stack_push_sub_index(0) == stack_pop_sub_index(0) * DEPTH_POW_OF_ONE_LEVEL + field_index(0)",
            e_sub(e_cell(s.stack_push_sub_index), e_add(e_mul(e_cell(s.stack_pop_sub_index),
                e_const(DEPTH_POW_OF_ONE_LEVEL as u128)), field_index))),
        at(RowScope::NotFirst, "stack_push_value(0) == stack_pop_value(0)",
            e_sub(s.stack_push_value.spec_expr(), s.stack_pop_value.spec_expr())),
        at(RowScope::NotFirst, "stack_push_value_header(0) == stack_pop_value_header(0)",
            e_sub(e_cell(s.stack_push_value_header), header)),
        at(RowScope::NotFirst, "stack_push_version(0) == clk(0)", e_sub(e_cell(s.stack_push_version), e_cell(s.clk))),
        at(RowScope::Last, "field_index(0) == 1", e_mul(e_not(no_field), e_sub(field_index, e_const(1)))),
        at(RowScope::Last, "field_counter(0) == 1", e_mul(e_not(no_field), e_sub(field_counter, e_const(1)))),
    ]
}

/// The requirements of `Pack`, in order.
pub open spec fn pack_requirements(s: StepState, c: int) -> Seq<RequirementRecord> {
    let (_, _, last_row, last_row_of_field) = pack_flags(s, c);
    let next_field = Some(e_and2(e_not(last_row), last_row_of_field));
    let same_field = Some(e_and2(e_not(last_row), e_not(last_row_of_field)));
    seq![
        req(RowScope::First, None, Requirement::NoStackPop),
        req(RowScope::First, None, Requirement::NoLocalOp),
        req(RowScope::NotFirst, None, Requirement::NoLocalOp),
        req(RowScope::NotFirst, next_field, Requirement::CellTransition(cell_at(c), Transition::Delta(minus_one()))),
        req(RowScope::NotFirst, next_field, Requirement::CellTransition(s.stack_pop_index, Transition::Delta(minus_one()))),
        req(RowScope::NotFirst, next_field, Requirement::CellTransition(s.stack_pop_sub_index, Transition::To(e_const(0)))),
        req(RowScope::NotFirst, same_field, Requirement::CellTransition(cell_at(c), Transition::Same)),
        req(RowScope::NotFirst, same_field, Requirement::CellTransition(cell_at(c + 1), Transition::Delta(minus_one()))),
        req(RowScope::NotFirst, same_field, Requirement::CellTransition(s.stack_pop_index, Transition::Same)),
        req(RowScope::NotLast, None, Requirement::StateTransition(StateField::Sp, Transition::Same)),
    ] + transition_records(RowScope::Last, None, pack_exit(s))
}

/// Same frame, module and function, next instruction, and the stack pointer
/// at the pushed value.
pub open spec fn pack_exit(s: StepState) -> Seq<(StateField, Transition)> {
    seq![
        (StateField::FrameIndex, Transition::Same),
        (StateField::ModuleIndex, Transition::Same),
        (StateField::FunctionIndex, Transition::Same),
        (StateField::Pc, Transition::Delta(e_const(1))),
        (StateField::Sp, Transition::To(e_cell(s.stack_push_index))),
    ]
}

impl<const VEC_PACK: bool> Pack<VEC_PACK> {
    #[verifier::rlimit(40)]
    pub fn configure(cb: &mut ConstraintBuilder) -> (r: Self)
        requires
            old(cb).wf(),
            old(cb).scope == RowScope::All,
            old(cb).condition is None,
            old(cb).has_room(6),
        ensures
            final(cb).wf(),
            final(cb).scope == RowScope::All,
            final(cb).condition is None,
            final(cb).curr == old(cb).curr,
            final(cb).next_column == old(cb).next_column + 6,
            r.field_index == cell_at(old(cb).next_column as int),
            r.field_counter == cell_at(old(cb).next_column + 1),
            r.is_zero_stack_pop_sub_index.is_zero == pack_flags(old(cb).curr, old(cb).next_column as int).1,
            r.is_zero_num_field.is_zero == pack_flags(old(cb).curr, old(cb).next_column as int).0,
            r.last_row.is_zero == pack_flags(old(cb).curr, old(cb).next_column as int).2,
            r.last_row_of_field.is_zero == pack_flags(old(cb).curr, old(cb).next_column as int).3,
            final(cb).lookups == old(cb).lookups,
            final(cb).constraints@ == old(cb).constraints@ + pack_constraints(VEC_PACK, old(cb).curr, old(cb).next_column as int),
            final(cb).requirements@ == old(cb).requirements@ + pack_requirements(old(cb).curr, old(cb).next_column as int),
    {
        let ghost c = cb.next_column as int;
        let s = cb.curr;
        let field_index = cb.query_cell();
        let field_counter = cb.query_cell();
        let is_zero_stack_pop_sub_index = IsZeroGadget::construct(cb, s.stack_pop_sub_index.expr());
        let is_zero_num_field = IsZeroGadget::construct(cb, s.aux0.expr());
        let last_row = IsZeroGadget::construct(cb, Expression::sub(s.step_counter.expr(), Expression::constant(1)));
        let last_row_of_field = IsZeroGadget::construct(cb, Expression::sub(field_counter.expr(), Expression::constant(1)));
        let n = cb.step_state_at_offset(1);
        let field_index_next = field_index.at_offset(1);
        let num_field = s.aux0.expr();
        let op = if VEC_PACK { Opcode::VecPack } else { Opcode::Pack };

        let prev = cb.scope_begin(RowScope::First);
        cb.require_equal("opcode", s.opcode.expr(), Expression::constant(op.index() as u128));
        cb.require_equal(
            "stack_push_index(0) == sp(0) - num_field + 1",
            s.stack_push_index.expr(),
            Expression::add(Expression::sub(s.sp.expr(), num_field.copy()), Expression::constant(1)),
        );
        cb.require_zero("stack_push_sub_index(0) == 0", s.stack_push_sub_index.expr());
        cb.require_equal(
            "stack_push_value(0).as_header().len() == num_field",
            s.stack_push_value.as_header().len(),
            num_field.copy(),
        );
        cb.require_equal(
            "stack_push_value(0).as_header().flen() == step_counter(0)",
            s.stack_push_value.as_header().flen(),
            s.step_counter.expr(),
        );
        cb.require_true("stack_push_value_header(0) == true", s.stack_push_value_header.expr());
        cb.require_equal("stack_push_version(0) == clk(0)", s.stack_push_version.expr(), s.clk.expr());
        cb.require_no_stack_pop();
        cb.require_no_local_op();
        let c0 = cb.condition_begin(Expression::not(is_zero_num_field.expr()));
        cb.require_equal("field_index(1) == aux0(0)", field_index_next.expr(), s.aux0.expr());
        cb.require_equal("stack_pop_index(1) == sp(0)", n.stack_pop_index.expr(), s.sp.expr());
        cb.require_zero("stack_pop_sub_index(1) == 0", n.stack_pop_sub_index.expr());
        cb.condition_end(c0);
        let c0 = cb.condition_begin(is_zero_num_field.expr());
        cb.require_equal("step_counter(0) == 1", s.step_counter.expr(), Expression::constant(1));
        cb.condition_end(c0);
        cb.scope_end(prev);

        let prev = cb.scope_begin(RowScope::NotFirst);
        let c0 = cb.condition_begin(is_zero_stack_pop_sub_index.expr());
        cb.require_zero(
            "is_simple * (field_counter(0) - 1)",
            Expression::mul(
                Expression::sub(Expression::constant(1), s.stack_pop_value_header.expr()),
                Expression::sub(field_counter.expr(), Expression::constant(1)),
            ),
        );
        cb.require_zero(
            "is_header * (field_counter(0) - stack_pop_value(0).as_header().flen) == 0",
            Expression::mul(
                s.stack_pop_value_header.expr(),
                Expression::sub(field_counter.expr(), s.stack_pop_value.as_header().flen()),
            ),
        );
        cb.condition_end(c0);
        cb.require_equal(
            "stack_push_index(0) == sp(0) - num_field + 1",
            s.stack_push_index.expr(),
            Expression::add(Expression::sub(s.sp.expr(), num_field), Expression::constant(1)),
        );
        cb.require_equal(
            "stack_push_sub_index(0) == stack_pop_sub_index(0) * DEPTH_POW_OF_ONE_LEVEL + field_index(0)",
            s.stack_push_sub_index.expr(),
            Expression::add(
                Expression::mul(s.stack_pop_sub_index.expr(), Expression::constant(DEPTH_POW_OF_ONE_LEVEL as u128)),
                field_index.expr(),
            ),
        );
        cb.require_equal("stack_push_value(0) == stack_pop_value(0)", s.stack_push_value.expr(), s.stack_pop_value.expr());
        cb.require_equal(
            "stack_push_value_header(0) == stack_pop_value_header(0)",
            s.stack_push_value_header.expr(),
            s.stack_pop_value_header.expr(),
        );
        cb.require_equal("stack_push_version(0) == clk(0)", s.stack_push_version.expr(), s.clk.expr());
        cb.require_no_local_op();
        let c0 = cb.condition_begin(Expression::and2(Expression::not(last_row.expr()), last_row_of_field.expr()));
        cb.require_cell_transition(field_index, Transition::Delta(Expression::neg(Expression::constant(1))));
        cb.require_cell_transition(s.stack_pop_index, Transition::Delta(Expression::neg(Expression::constant(1))));
        cb.require_cell_transition(s.stack_pop_sub_index, Transition::To(Expression::constant(0)));
        cb.condition_end(c0);
        let c0 = cb.condition_begin(Expression::and2(Expression::not(last_row.expr()), Expression::not(last_row_of_field.expr())));
        cb.require_cell_transition(field_index, Transition::Same);
        cb.require_cell_transition(field_counter, Transition::Delta(Expression::neg(Expression::constant(1))));
        cb.require_cell_transition(s.stack_pop_index, Transition::Same);
        cb.condition_end(c0);
        cb.scope_end(prev);

        let prev = cb.scope_begin(RowScope::NotLast);
        cb.require_state_transition(StateField::Sp, Transition::Same);
        cb.scope_end(prev);

        let prev = cb.scope_begin(RowScope::Last);
        let c0 = cb.condition_begin(Expression::not(is_zero_num_field.expr()));
        cb.require_equal("field_index(0) == 1", field_index.expr(), Expression::constant(1));
        cb.require_equal("field_counter(0) == 1", field_counter.expr(), Expression::constant(1));
        cb.condition_end(c0);
        let exit = vec![
            (StateField::FrameIndex, Transition::Same),
            (StateField::ModuleIndex, Transition::Same),
            (StateField::FunctionIndex, Transition::Same),
            (StateField::Pc, Transition::Delta(Expression::constant(1))),
            (StateField::Sp, Transition::To(s.stack_push_index.expr())),
        ];
        proof {
            assert(exit@ =~= pack_exit(s));
        }
        cb.require_state_transitions(exit);
        cb.scope_end(prev);
        proof {
            assert(cb.constraints@ =~= old(cb).constraints@ + pack_constraints(VEC_PACK, s, c));
            assert(cb.requirements@ =~= old(cb).requirements@ + pack_requirements(s, c));
        }
        Pack { field_index, field_counter, is_zero_stack_pop_sub_index, is_zero_num_field, last_row, last_row_of_field }
    }
}

/// The number of the run of equal stack indexes that position `k` of `p`
/// belongs to, counting from `0`.
pub open spec fn run_index(p: Seq<u64>, k: int) -> nat
    decreases k,
{
    if k <= 0 { 0 } else { run_index(p, k - 1) + (if p[k] != p[k - 1] { 1nat } else { 0nat }) }
}

/// The number of positions from `k` to the end of its run.
pub open spec fn run_rest(p: Seq<u64>, k: int) -> nat
    decreases p.len() - k,
{
    if 0 <= k && k + 1 < p.len() && p[k + 1] == p[k] { 1 + run_rest(p, k + 1) } else { 1 }
}

/// The number of runs of equal stack indexes.
pub open spec fn num_runs(p: Seq<u64>) -> nat {
    if p.len() == 0 { 0 } else { run_index(p, p.len() - 1) + 1 }
}

/// The numbering that `assign` gives the field rows meets the transitions
/// that `configure` requires: the first field row is numbered with the field
/// count; along a field (equal popped stack indexes) the number stays and
/// the counter goes down by one; a field ends with counter `1`, and the next
/// field's number is one less; the last row is field `1` with counter `1`.
pub proof fn lemma_pack_numbering(p: Seq<u64>)
    ensures
        p.len() > 0 ==> num_runs(p) - run_index(p, 0) == num_runs(p),
        p.len() > 0 ==> num_runs(p) - run_index(p, p.len() - 1) == 1 && run_rest(p, p.len() - 1) == 1,
        forall|k: int| 0 <= k && k + 1 < p.len() && p[k + 1] == p[k] ==>
            #[trigger] run_index(p, k + 1) == run_index(p, k) && run_rest(p, k + 1) + 1 == run_rest(p, k),
        forall|k: int| 0 <= k && k + 1 < p.len() && p[k + 1] != p[k] ==>
            #[trigger] run_index(p, k + 1) == run_index(p, k) + 1 && run_rest(p, k) == 1,
{
}

/// The witness of one row of `Pack`: the field index and the field counter
/// (unknown on the first row), and the `(inverse, result)` of the four tests.
#[derive(Debug)]
pub struct PackRow {
    pub field_index: Option<Fe>,
    pub field_counter: Option<Fe>,
    pub is_zero_stack_pop_sub_index: (Fe, Fe),
    pub is_zero_num_field: (Fe, Fe),
    pub last_row: (Fe, Fe),
    pub last_row_of_field: (Fe, Fe),
}

/// Run numbers never decrease and grow by at most one per position.
proof fn lemma_run_index_step(p: Seq<u64>, k: int)
    requires
        0 < k < p.len(),
    ensures
        run_index(p, k) == run_index(p, k - 1) + (if p[k] != p[k - 1] { 1nat } else { 0nat }),
{
}

proof fn lemma_run_index_bound(p: Seq<u64>, k: int)
    requires
        0 <= k < p.len(),
    ensures
        run_index(p, k) < num_runs(p),
    decreases p.len() - k,
{
    if k + 1 < p.len() {
        lemma_run_index_bound(p, k + 1);
    }
}

impl<const VEC_PACK: bool> Pack<VEC_PACK> {
    /// The witness of the rows of a `Pack` whose first row pushes the header
    /// and whose later rows pop the limbs of the fields: `pops` are the stack
    /// indexes popped at rows `1 ..`, each field a run of equal indexes;
    /// `sub_indexes` and `step_counters` are those of every row. The fields
    /// are numbered down from their count in the order of the rows, the limbs
    /// of a field are counted down to `1`, and the field's last row is
    /// flagged.
    #[verifier::rlimit(60)]
    pub fn assign(&self, pops: &Vec<u64>, sub_indexes: &Vec<Fe>, step_counters: &Vec<Fe>)
        -> (rows: Vec<PackRow>)
        requires
            sub_indexes@.len() == pops@.len() + 1,
            step_counters@.len() == pops@.len() + 1,
        ensures
            rows@.len() == pops@.len() + 1,
            rows@[0].field_index is None,
            rows@[0].field_counter is None,
            rows@[0].last_row_of_field.1.val() == 1,
            rows@[0].is_zero_stack_pop_sub_index.1.val() == 1,
            zero_test(0, rows@[0].last_row_of_field),
            zero_test(0, rows@[0].is_zero_stack_pop_sub_index),
            forall|i: int| 0 <= i < rows@.len() ==> {
                let row = #[trigger] rows@[i];
                &&& row.is_zero_num_field.1.val() == (if num_runs(pops@) == 0 { 1nat } else { 0nat })
                &&& row.last_row.1.val() == (if step_counters@[i].val() == 1 { 1nat } else { 0nat })
                &&& zero_test(num_runs(pops@), row.is_zero_num_field)
                &&& zero_test(field_diff(step_counters@[i].val(), 1), row.last_row)
            },
            forall|i: int| 1 <= i < rows@.len() ==> {
                let row = #[trigger] rows@[i];
                let k = i - 1;
                &&& row.field_counter matches Some(c) && c.val() == run_rest(pops@, k)
                &&& row.field_index matches Some(f) && f.val() == num_runs(pops@) - run_index(pops@, k)
                &&& row.is_zero_stack_pop_sub_index.1.val() == (if sub_indexes@[i].val() == 0 { 1nat } else { 0nat })
                &&& row.last_row_of_field.1.val() == (if run_rest(pops@, k) == 1 { 1nat } else { 0nat })
                &&& zero_test(sub_indexes@[i].val(), row.is_zero_stack_pop_sub_index)
                &&& zero_test((run_rest(pops@, k) - 1) as nat, row.last_row_of_field)
            },
    {
        let n = pops.len();
        // the run of each position
        let mut run: Vec<usize> = Vec::new();
        let mut g: usize = 0;
        let mut k: usize = 0;
        while k < n
            invariant
                n == pops@.len(),
                k <= n,
                run@.len() == k,
                forall|j: int| 0 <= j < k ==> #[trigger] run@[j] == run_index(pops@, j),
                k > 0 ==> g == run_index(pops@, k - 1),
                k > 0 ==> g < k,
                k == 0 ==> g == 0,
            decreases n - k,
        {
            if k > 0 && pops[k] != pops[k - 1] {
                g = g + 1;
            }
            proof {
                if k > 0 {
                    lemma_run_index_step(pops@, k as int);
                }
            }
            run.push(g);
            k = k + 1;
        }
        let num_field: usize = if n == 0 { 0 } else { g + 1 };
        // the rest of each run, from the back
        let mut rest_rev: Vec<u64> = Vec::new();
        let mut k: usize = n;
        while k > 0
            invariant
                n == pops@.len(),
                k <= n,
                rest_rev@.len() == n - k,
                forall|j: int| 0 <= j < n - k ==> #[trigger] rest_rev@[j] == run_rest(pops@, n - 1 - j),
                forall|j: int| 0 <= j < n - k ==> #[trigger] rest_rev@[j] <= j + 1,
            decreases k,
        {
            let idx = k - 1;
            let r: u64 = if idx + 1 < n && pops[idx + 1] == pops[idx] { rest_rev[n - k - 1] + 1 } else { 1 };
            rest_rev.push(r);
            k = k - 1;
        }
        let nf = Fe::from_u64(num_field as u64);
        let one = Fe::one();
        let mut rows: Vec<PackRow> = Vec::new();
        let last0 = fe_sub(&step_counters[0], &one);
        proof {
            crate::field::lemma_val_bound(step_counters@[0]);
            crate::field::lemma_sub_zero(step_counters@[0].val() as int, 1);
        }
        rows.push(PackRow {
            field_index: None,
            field_counter: None,
            is_zero_stack_pop_sub_index: self.is_zero_stack_pop_sub_index.assign(&Fe::zero()),
            is_zero_num_field: self.is_zero_num_field.assign(&nf),
            last_row: self.last_row.assign(&last0),
            last_row_of_field: self.last_row_of_field.assign(&Fe::zero()),
        });
        let total = sub_indexes.len();
        assert(total == n + 1);
        let mut i: usize = 1;
        while i <= n
            invariant
                n == pops@.len(),
                1 <= i <= n + 1,
                sub_indexes@.len() == n + 1,
                step_counters@.len() == n + 1,
                num_field == num_runs(pops@),
                nf.val() == num_field,
                one.val() == 1,
                run@.len() == n,
                forall|t: int| 0 <= t < n ==> #[trigger] run@[t] == run_index(pops@, t),
                rest_rev@.len() == n,
                forall|t: int| 0 <= t < n ==> #[trigger] rest_rev@[t] == run_rest(pops@, n - 1 - t),
                n < usize::MAX,
                rows@.len() == i,
                rows@[0].field_index is None,
                rows@[0].field_counter is None,
                rows@[0].last_row_of_field.1.val() == 1,
                rows@[0].is_zero_stack_pop_sub_index.1.val() == 1,
                zero_test(0, rows@[0].last_row_of_field),
                zero_test(0, rows@[0].is_zero_stack_pop_sub_index),
                forall|t: int| 0 <= t < i ==> {
                    let row = #[trigger] rows@[t];
                    &&& row.is_zero_num_field.1.val() == (if num_runs(pops@) == 0 { 1nat } else { 0nat })
                    &&& row.last_row.1.val() == (if step_counters@[t].val() == 1 { 1nat } else { 0nat })
                    &&& zero_test(num_runs(pops@), row.is_zero_num_field)
                    &&& zero_test(field_diff(step_counters@[t].val(), 1), row.last_row)
                },
                forall|t: int| 1 <= t < i ==> {
                    let row = #[trigger] rows@[t];
                    let k = t - 1;
                    &&& row.field_counter matches Some(c) && c.val() == run_rest(pops@, k)
                    &&& row.field_index matches Some(f) && f.val() == num_runs(pops@) - run_index(pops@, k)
                    &&& row.is_zero_stack_pop_sub_index.1.val() == (if sub_indexes@[t].val() == 0 { 1nat } else { 0nat })
                    &&& row.last_row_of_field.1.val() == (if run_rest(pops@, k) == 1 { 1nat } else { 0nat })
                    &&& zero_test(sub_indexes@[t].val(), row.is_zero_stack_pop_sub_index)
                    &&& zero_test((run_rest(pops@, k) - 1) as nat, row.last_row_of_field)
                },
            decreases n + 1 - i,
        {
            let k = i - 1;
            proof {
                lemma_run_index_bound(pops@, k as int);
            }
            let g = run[k];
            let field_index = Fe::from_u64((num_field - g) as u64);
            let counter = rest_rev[n - 1 - k];
            let field_counter = Fe::from_u64(counter);
            let last = fe_sub(&step_counters[i], &one);
            proof {
                crate::field::lemma_val_bound(step_counters@[i as int]);
                crate::field::lemma_sub_zero(step_counters@[i as int].val() as int, 1);
                assert(n - 1 - (n - 1 - k) == k);
                assert(run_rest(pops@, k as int) >= 1);
            }
            rows.push(PackRow {
                field_index: Some(field_index),
                field_counter: Some(field_counter),
                is_zero_stack_pop_sub_index: self.is_zero_stack_pop_sub_index.assign(&sub_indexes[i]),
                is_zero_num_field: self.is_zero_num_field.assign(&nf),
                last_row: self.last_row.assign(&last),
                last_row_of_field: self.last_row_of_field.assign(&Fe::from_u64(counter - 1)),
            });
            i = i + 1;
        }
        rows
    }
}

/// What a field row of `Pack` proves: where the constraints of `Pack` that
/// hold on every row but the first vanish, the row copies the popped value
/// (and its header flag) into the packed value, at the pushed stack index
/// `sp - num_field + 1`, at the sub index `stack_pop_sub_index * 2^16 +
/// field_index`, stamped with the clock; and on a top-level field (popped
/// sub index zero) the field counter starts at the field's flattened
/// length: `1` for a simple value, `flen` for a header. All in the field.
pub proof fn lemma_pack_field_row(vec_pack: bool, s: StepState, c: int, w: Witness, row: int)
    requires
        forall|i: int| 11 <= i < 18 ==> #[trigger] eval(pack_constraints(vec_pack, s, c)[i].poly, w, row)
            % (modulus() as int) == 0,
    ensures
        ({
            let p = modulus() as int;
            let v = |e: Expression| eval(e, w, row) % p;
            let field_counter = e_cell(cell_at(c + 1));
            let top_level = eval(e_cell(s.stack_pop_sub_index), w, row) % p == 0;
            &&& v(e_cell(s.stack_push_index)) == v(e_add(e_sub(e_cell(s.sp), e_cell(s.aux0)), e_const(1)))
            &&& v(e_cell(s.stack_push_sub_index)) == v(e_add(e_mul(e_cell(s.stack_pop_sub_index),
                e_const(DEPTH_POW_OF_ONE_LEVEL as u128)), e_cell(cell_at(c))))
            &&& v(s.stack_push_value.spec_expr()) == v(s.stack_pop_value.spec_expr())
            &&& v(e_cell(s.stack_push_value_header)) == v(e_cell(s.stack_pop_value_header))
            &&& v(e_cell(s.stack_push_version)) == v(e_cell(s.clk))
            &&& (top_level && eval(e_cell(s.stack_pop_value_header), w, row) == 0) ==> v(field_counter) == 1
            &&& (top_level && eval(e_cell(s.stack_pop_value_header), w, row) == 1)
                ==> v(field_counter) == v(e_cell(s.stack_pop_value.cells[0]))
        }),
{
    let p = modulus() as int;
    lemma_modulus_bounds();
    reveal_with_fuel(eval, 4);
    let cs = pack_constraints(vec_pack, s, c);
    let (_, top, _, _) = pack_flags(s, c);
    assert(eval(cs[13].poly, w, row) % p == 0);
    lemma_equal_in_field(eval(e_cell(s.stack_push_index), w, row),
        eval(e_add(e_sub(e_cell(s.sp), e_cell(s.aux0)), e_const(1)), w, row));
    assert(eval(cs[14].poly, w, row) % p == 0);
    lemma_equal_in_field(eval(e_cell(s.stack_push_sub_index), w, row), eval(e_add(e_mul(e_cell(s.stack_pop_sub_index),
        e_const(DEPTH_POW_OF_ONE_LEVEL as u128)), e_cell(cell_at(c))), w, row));
    assert(eval(cs[15].poly, w, row) % p == 0);
    lemma_equal_in_field(eval(s.stack_push_value.spec_expr(), w, row), eval(s.stack_pop_value.spec_expr(), w, row));
    assert(eval(cs[16].poly, w, row) % p == 0);
    lemma_equal_in_field(eval(e_cell(s.stack_push_value_header), w, row), eval(e_cell(s.stack_pop_value_header), w, row));
    assert(eval(cs[17].poly, w, row) % p == 0);
    lemma_equal_in_field(eval(e_cell(s.stack_push_version), w, row), eval(e_cell(s.clk), w, row));
    // a top-level field: the test of the popped sub index is 1
    let si = eval(e_cell(s.stack_pop_sub_index), w, row);
    let iv = eval(e_cell(cell_at(c + 2)), w, row);
    let t = eval(top, w, row);
    assert(t == 1 - si * iv);
    if si % p == 0 {
        lemma_mul_mod_noop_left(si, iv, p);
        assert((si % p) * iv == 0);
        lemma_sub_mod_noop(1, si * iv, p);
        lemma_small_mod(1, p as nat);
        assert(t % p == 1);
        let fc = eval(e_cell(cell_at(c + 1)), w, row);
        let h = eval(e_cell(s.stack_pop_value_header), w, row);
        assert(eval(cs[11].poly, w, row) % p == 0);
        assert(eval(cs[12].poly, w, row) % p == 0);
        assert(eval(cs[11].poly, w, row) == t * ((1 - h) * (fc - 1)));
        assert(eval(cs[12].poly, w, row) == t * (h * (fc - eval(e_cell(s.stack_pop_value.cells[0]), w, row))));
        lemma_unit_factor(t, (1 - h) * (fc - 1));
        lemma_unit_factor(t, h * (fc - eval(e_cell(s.stack_pop_value.cells[0]), w, row)));
        if h == 0 {
            assert((1 - h) * (fc - 1) == fc - 1) by (nonlinear_arith) requires h == 0;
            lemma_equal_in_field(fc, 1);
        } else if h == 1 {
            let lo = eval(e_cell(s.stack_pop_value.cells[0]), w, row);
            assert(h * (fc - lo) == fc - lo) by (nonlinear_arith) requires h == 1;
            lemma_equal_in_field(fc, eval(e_cell(s.stack_pop_value.cells[0]), w, row));
        }
    }
}

} // verus!
