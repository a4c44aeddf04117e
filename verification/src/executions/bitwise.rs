use vstd::prelude::*;
use vstd::arithmetic::power2::*;
use crate::builder::{Constraint, ConstraintBuilder, LookupRecord, RowScope, Requirement, Transition, at,
    byte_range_records, e_in_set, fresh_cells, req, transition_records};
use crate::executions::common::{e_opcodes, minus_one, opcode_exprs};
use crate::bytes::digit;
use crate::expr::{Cell, Expression, Witness, cell_exprs, cell_exprs_of, e_add, e_cell, e_const, e_from_limbs, e_sub,
    eval, evals, lemma_eval_from_limbs, lemma_weighted_sum_bound, lemma_weighted_sum_unique, weighted_sum};
use crate::field::{lemma_modulus_bounds, modulus};
use crate::math_gadgets::add::lemma_small_int_mod_zero;
use crate::lookup_table::{Lookup, Table};
use crate::lookup_table::bitwise_table::{bitwise_result, bitwise_table_opcodes, bitwise_table_row,
    lemma_bitwise_table_row};
use crate::opcode::Opcode;
use crate::step::{ExecutionState, StateField, StepState, rotate};
use crate::u256::{ToNibbles, U256, lemma_two_128, lemma_weighted_sum_digits, nibble_of, two_128};

verus! {

/// The opcodes of the bitwise instructions.
pub open spec fn bitwise_opcodes() -> Seq<Opcode> {
    seq![Opcode::BitOr, Opcode::BitAnd, Opcode::Xor]
}

fn bitwise_opcode_array() -> (r: [Opcode; 3])
    ensures
        r@ == bitwise_opcodes(),
{
    let r = [Opcode::BitOr, Opcode::BitAnd, Opcode::Xor];
    proof {
        assert(r@ =~= bitwise_opcodes());
    }
    r
}

/// `cells`, each read `off` rows further.
pub open spec fn rotated_cells(cells: Seq<Cell>, off: int) -> Seq<Cell> {
    cells.map_values(|c: Cell| rotate(c, off))
}

/// `cells` read at each row offset of `lo .. hi`, row after row.
pub open spec fn rows_cells(cells: Seq<Cell>, lo: int, hi: int) -> Seq<Cell>
    decreases hi - lo,
{
    if hi <= lo {
        Seq::empty()
    } else {
        rows_cells(cells, lo, hi - 1) + rotated_cells(cells, hi - 1)
    }
}

/// The value of little-endian nibble cells: `from_limbs` with 4-bit limbs.
pub open spec fn e_nibbles(cells: Seq<Cell>) -> Expression {
    e_from_limbs(cell_exprs(cells), 4)
}

fn nibbles_expr(cells: &[Cell]) -> (r: Expression)
    requires
        cells@.len() <= 64,
    ensures
        r == e_nibbles(cells@),
{
    let v = cell_exprs_of(cells);
    Expression::from_limbs(&v, 4)
}

/// `cells` read at each row offset of `lo .. hi`.
fn gather_rows(cells: &Vec<Cell>, lo: i32, hi: i32) -> (r: Vec<Cell>)
    requires
        0 <= lo <= hi <= 64,
        forall|i: int| 0 <= i < cells@.len() ==> #[trigger] cells@[i].rotation == 0,
    ensures
        r@ == rows_cells(cells@, lo as int, hi as int),
{
    let mut r: Vec<Cell> = Vec::new();
    let mut i: i32 = lo;
    while i < hi
        invariant
            0 <= lo <= i <= hi <= 64,
            forall|k: int| 0 <= k < cells@.len() ==> #[trigger] cells@[k].rotation == 0,
            r@ == rows_cells(cells@, lo as int, i as int),
        decreases hi - i,
    {
        let ghost start = r@;
        let mut j: usize = 0;
        while j < cells.len()
            invariant
                0 <= i < 64,
                j <= cells@.len(),
                forall|k: int| 0 <= k < cells@.len() ==> #[trigger] cells@[k].rotation == 0,
                r@ == start + rotated_cells(cells@, i as int).take(j as int),
            decreases cells.len() - j,
        {
            r.push(cells[j].at_offset(i));
            proof {
                assert(rotated_cells(cells@, i as int).take(j as int + 1)
                    =~= rotated_cells(cells@, i as int).take(j as int).push(rotate(cells@[j as int], i as int)));
            }
            j = j + 1;
        }
        proof {
            assert(rotated_cells(cells@, i as int).take(cells@.len() as int) =~= rotated_cells(cells@, i as int));
        }
        i = i + 1;
    }
    r
}

/// `recs` look up, position by position, `(opcode, lhs, rhs, out)` in the
/// bitwise table at `scope`.
pub open spec fn bitwise_records(
    recs: Seq<LookupRecord>,
    opcode: Expression,
    lhs: Seq<Cell>,
    rhs: Seq<Cell>,
    out: Seq<Cell>,
    scope: RowScope,
) -> bool {
    &&& recs.len() == lhs.len()
    &&& forall|i: int| 0 <= i < recs.len() ==> {
        let rec = #[trigger] recs[i];
        &&& rec.name == "bitwise lookup"
        &&& rec.scope == scope
        &&& rec.table == Table::Bitwise
        &&& rec.inputs@ == seq![opcode, e_cell(lhs[i]), e_cell(rhs[i]), e_cell(out[i])]
    }
}

/// One bitwise-table lookup per position of the three nibble sequences
/// (`LookupBitwise::lookup`).
fn lookup_bitwise(cb: &mut ConstraintBuilder, opcode: &Expression, lhs: &Vec<Cell>, rhs: &Vec<Cell>, out: &Vec<Cell>)
    requires
        old(cb).condition is None,
        lhs@.len() == rhs@.len(),
        lhs@.len() == out@.len(),
    ensures
        final(cb).lookups@.len() == old(cb).lookups@.len() + lhs@.len(),
        final(cb).lookups@.take(old(cb).lookups@.len() as int) == old(cb).lookups@,
        bitwise_records(final(cb).lookups@.skip(old(cb).lookups@.len() as int), *opcode, lhs@, rhs@, out@, old(cb).scope),
        final(cb).only_lookups_changed(*old(cb)),
{
    let ghost n0 = old(cb).lookups@.len() as int;
    let mut i: usize = 0;
    while i < lhs.len()
        invariant
            i <= lhs@.len(),
            lhs@.len() == rhs@.len(),
            lhs@.len() == out@.len(),
            cb.lookups@.len() == n0 + i,
            cb.lookups@.take(n0) == old(cb).lookups@,
            n0 == old(cb).lookups@.len(),
            forall|k: int| 0 <= k < i ==> {
                let rec = #[trigger] cb.lookups@[n0 + k];
                &&& rec.name == "bitwise lookup"
                &&& rec.scope == old(cb).scope
                &&& rec.table == Table::Bitwise
                &&& rec.inputs@ == seq![*opcode, e_cell(lhs@[k]), e_cell(rhs@[k]), e_cell(out@[k])]
            },
            cb.only_lookups_changed(*old(cb)),
            old(cb).condition is None,
        decreases lhs.len() - i,
    {
        let ghost before = cb.lookups@;
        cb.add_lookup(
            "bitwise lookup",
            Lookup::Bitwise { opcode: opcode.copy(), value_1: lhs[i].expr(), value_2: rhs[i].expr(), result: out[i].expr() },
        );
        proof {
            assert(cb.lookups@.take(n0) =~= before.take(n0));
            assert(cb.lookups@[n0 + i as int].inputs@ =~= seq![*opcode, e_cell(lhs@[i as int]), e_cell(rhs@[i as int]), e_cell(out@[i as int])]);
            assert forall|k: int| 0 <= k < i + 1 implies {
                let rec = #[trigger] cb.lookups@[n0 + k];
                &&& rec.name == "bitwise lookup"
                &&& rec.scope == old(cb).scope
                &&& rec.table == Table::Bitwise
                &&& rec.inputs@ == seq![*opcode, e_cell(lhs@[k]), e_cell(rhs@[k]), e_cell(out@[k])]
            } by {
                if k < i {
                    assert(cb.lookups@[n0 + k] == before[n0 + k]);
                }
            }
        }
        i = i + 1;
    }
    proof {
        let t = cb.lookups@.skip(n0);
        assert forall|k: int| 0 <= k < t.len() implies {
            let rec = #[trigger] t[k];
            &&& rec.name == "bitwise lookup"
            &&& rec.scope == old(cb).scope
            &&& rec.table == Table::Bitwise
            &&& rec.inputs@ == seq![*opcode, e_cell(lhs@[k]), e_cell(rhs@[k]), e_cell(out@[k])]
        } by {
            assert(t[k] == cb.lookups@[n0 + k]);
        }
    }
}

/// The single-stage bitwise instruction over three rows: the second operand is
/// popped at the first row, the first operand at the second, and the result
/// is pushed at the last. One set of nibble cells holds, at each row, the
/// nibbles of the value of that row.
#[derive(Debug)]
pub struct Bitwise {
    pub nibbles: Vec<Cell>,
}

/// The constraint that the limbs `lo` and `hi` are the values of the first and
/// the last 32 of `nibbles`.
pub open spec fn limbs_are_nibbles(lo: Expression, hi: Expression, nibbles: Seq<Cell>) -> (Expression, Expression) {
    (e_sub(lo, e_nibbles(nibbles.take(32))), e_sub(hi, e_nibbles(nibbles.skip(32))))
}

pub open spec fn bitwise_constraints(s: StepState, p1: StepState, p2: StepState, nibbles: Seq<Cell>) -> Seq<Constraint> {
    let l = limbs_are_nibbles(e_cell(p1.stack_pop_value.cells[0]), e_cell(p1.stack_pop_value.cells[1]), rotated_cells(nibbles, -1));
    let r = limbs_are_nibbles(e_cell(p2.stack_pop_value.cells[0]), e_cell(p2.stack_pop_value.cells[1]), rotated_cells(nibbles, -2));
    let o = limbs_are_nibbles(e_cell(s.stack_push_value.cells[0]), e_cell(s.stack_push_value.cells[1]), nibbles);
    seq![
        at(RowScope::First, "opcode in OPCODES", e_in_set(e_cell(s.opcode), e_opcodes(bitwise_opcodes()))),
        at(RowScope::First, "step_counter(0) == 3", e_sub(e_cell(s.step_counter), e_const(3))),
        at(RowScope::NotLast, "stack_pop_index(0) == sp(0) + step_counter(0) - 3",
            e_sub(e_cell(s.stack_pop_index), e_sub(e_add(e_cell(s.sp), e_cell(s.step_counter)), e_const(3)))),
        at(RowScope::NotLast, "stack_pop_sub_index(0) == 0", e_cell(s.stack_pop_sub_index)),
        at(RowScope::NotLast, "stack_pop_value_header(0) == false", e_cell(s.stack_pop_value_header)),
        at(RowScope::Last, "stack_push_index(0) == sp(0) - 1", e_sub(e_cell(s.stack_push_index), e_sub(e_cell(s.sp), e_const(1)))),
        at(RowScope::Last, "stack_push_sub_index(0) == 0", e_cell(s.stack_push_sub_index)),
        at(RowScope::Last, "lhs.lo = from_limbs(nibbles_lhs[0..32])", l.0),
        at(RowScope::Last, "lhs.hi = from_limbs(nibbles_lhs[32..])", l.1),
        at(RowScope::Last, "rhs.lo = from_limbs(nibbles_rhs[0..32])", r.0),
        at(RowScope::Last, "rhs.hi = from_limbs(nibbles_rhs[32..])", r.1),
        at(RowScope::Last, "out.lo = from_limbs(nibbles[0..32])", o.0),
        at(RowScope::Last, "out.hi = from_limbs(nibbles[32..])", o.1),
        at(RowScope::Last, "stack_push_value_header(0) == false", e_cell(s.stack_push_value_header)),
        at(RowScope::Last, "stack_push_version(0) == clk(0)", e_sub(e_cell(s.stack_push_version), e_cell(s.clk))),
    ]
}

/// The transition out of a binary stage that pops at its first rows: one
/// slot freed and the next instruction.
pub open spec fn pop_two_exit() -> Seq<(StateField, Transition)> {
    seq![
        (StateField::Sp, Transition::Delta(minus_one())),
        (StateField::Pc, Transition::Delta(e_const(1))),
    ]
}

fn pop_two_exit_vec() -> (r: Vec<(StateField, Transition)>)
    ensures
        r@ == pop_two_exit(),
{
    let v = vec![
        (StateField::Sp, Transition::Delta(Expression::neg(Expression::constant(1)))),
        (StateField::Pc, Transition::Delta(Expression::constant(1))),
    ];
    proof {
        assert(v@ =~= pop_two_exit());
    }
    v
}

/// `lo == from_limbs(nibbles[..32])` and `hi == from_limbs(nibbles[32..])`.
fn require_nibbles(cb: &mut ConstraintBuilder, name_lo: &'static str, name_hi: &'static str, lo: Expression,
    hi: Expression, nibbles: &Vec<Cell>)
    requires
        nibbles@.len() == 64,
    ensures
        final(cb).constraints@ == old(cb).constraints@ + seq![
            old(cb).spec_constraint(name_lo, limbs_are_nibbles(lo, hi, nibbles@).0),
            old(cb).spec_constraint(name_hi, limbs_are_nibbles(lo, hi, nibbles@).1),
        ],
        final(cb).only_constraints_changed(*old(cb)),
{
    let (a, b) = nibbles.as_slice().split_at(32);
    proof {
        assert(a@ =~= nibbles@.take(32));
        assert(b@ =~= nibbles@.skip(32));
    }
    cb.require_equal(name_lo, lo, nibbles_expr(a));
    cb.require_equal(name_hi, hi, nibbles_expr(b));
    proof {
        assert(cb.constraints@ =~= old(cb).constraints@ + seq![
            old(cb).spec_constraint(name_lo, limbs_are_nibbles(lo, hi, nibbles@).0),
            old(cb).spec_constraint(name_hi, limbs_are_nibbles(lo, hi, nibbles@).1),
        ]);
    }
}

impl Bitwise {
    pub fn configure(cb: &mut ConstraintBuilder) -> (r: Bitwise)
        requires
            old(cb).wf(),
            old(cb).scope == RowScope::All,
            old(cb).condition is None,
            old(cb).has_room(64),
        ensures
            final(cb).wf(),
            final(cb).scope == RowScope::All,
            final(cb).condition is None,
            final(cb).curr == old(cb).curr,
            final(cb).next_column == old(cb).next_column + 64,
            fresh_cells(r.nibbles@, old(cb).next_column as nat),
            r.nibbles@.len() == 64,
            final(cb).constraints@ == old(cb).constraints@ + bitwise_constraints(
                old(cb).curr, old(cb).curr.spec_at_offset(-1), old(cb).curr.spec_at_offset(-2), r.nibbles@),
            final(cb).lookups@.len() == old(cb).lookups@.len() + 128,
            final(cb).lookups@.take(old(cb).lookups@.len() as int) == old(cb).lookups@,
            byte_range_records(final(cb).lookups@.skip(old(cb).lookups@.len() as int).take(64), r.nibbles@,
                RowScope::All, None),
            bitwise_records(final(cb).lookups@.skip(old(cb).lookups@.len() as int + 64), e_cell(old(cb).curr.opcode),
                rotated_cells(r.nibbles@, -1), rotated_cells(r.nibbles@, -2), r.nibbles@, RowScope::Last),
            final(cb).requirements@ == old(cb).requirements@ + seq![
                req(RowScope::NotLast, None, Requirement::NoStackPush),
                req(RowScope::NotLast, None, Requirement::StateTransition(StateField::Sp, Transition::Same)),
                req(RowScope::All, None, Requirement::NoLocalOp),
                req(RowScope::Last, None, Requirement::NoStackPop),
            ] + transition_records(RowScope::Last, None, pop_two_exit()),
    {
        let s = cb.curr;
        let p1 = cb.step_state_at_offset(-1);
        let p2 = cb.step_state_at_offset(-2);
        let ghost n0 = cb.lookups@.len() as int;
        let nibbles = cb.query_bytes(64);
        let ghost mid = cb.lookups@;

        let prev = cb.scope_begin(RowScope::First);
        let ops = bitwise_opcode_array();
        cb.require_in_set("opcode in OPCODES", s.opcode.expr(), opcode_exprs(&ops));
        cb.require_equal("step_counter(0) == 3", s.step_counter.expr(), Expression::constant(3));
        cb.scope_end(prev);

        let prev = cb.scope_begin(RowScope::NotLast);
        cb.require_equal(
            "stack_pop_index(0) == sp(0) + step_counter(0) - 3",
            s.stack_pop_index.expr(),
            Expression::sub(Expression::add(s.sp.expr(), s.step_counter.expr()), Expression::constant(3)),
        );
        cb.require_zero("stack_pop_sub_index(0) == 0", s.stack_pop_sub_index.expr());
        cb.require_zero("stack_pop_value_header(0) == false", s.stack_pop_value_header.expr());
        cb.require_no_stack_push();
        cb.require_state_transition(StateField::Sp, Transition::Same);
        cb.scope_end(prev);

        cb.require_no_local_op();

        let prev = cb.scope_begin(RowScope::Last);
        cb.require_no_stack_pop();
        cb.require_equal(
            "stack_push_index(0) == sp(0) - 1",
            s.stack_push_index.expr(),
            Expression::sub(s.sp.expr(), Expression::constant(1)),
        );
        cb.require_zero("stack_push_sub_index(0) == 0", s.stack_push_sub_index.expr());
        let nibbles_lhs = cb.cells_at_offset(&nibbles, -1);
        let nibbles_rhs = cb.cells_at_offset(&nibbles, -2);
        proof {
            assert(nibbles_lhs@ =~= rotated_cells(nibbles@, -1));
            assert(nibbles_rhs@ =~= rotated_cells(nibbles@, -2));
        }
        let lhs = p1.stack_pop_value.as_integer();
        require_nibbles(cb, "lhs.lo = from_limbs(nibbles_lhs[0..32])", "lhs.hi = from_limbs(nibbles_lhs[32..])",
            lhs.lo(), lhs.hi(), &nibbles_lhs);
        let rhs = p2.stack_pop_value.as_integer();
        require_nibbles(cb, "rhs.lo = from_limbs(nibbles_rhs[0..32])", "rhs.hi = from_limbs(nibbles_rhs[32..])",
            rhs.lo(), rhs.hi(), &nibbles_rhs);
        let out = s.stack_push_value.as_integer();
        require_nibbles(cb, "out.lo = from_limbs(nibbles[0..32])", "out.hi = from_limbs(nibbles[32..])",
            out.lo(), out.hi(), &nibbles);
        let ghost mid2 = cb.lookups@;
        lookup_bitwise(cb, &s.opcode.expr(), &nibbles_lhs, &nibbles_rhs, &nibbles);
        cb.require_zero("stack_push_value_header(0) == false", s.stack_push_value_header.expr());
        cb.require_equal("stack_push_version(0) == clk(0)", s.stack_push_version.expr(), s.clk.expr());
        cb.require_state_transitions(pop_two_exit_vec());
        cb.scope_end(prev);
        proof {
            assert(mid2 == mid);
            assert(cb.lookups@.take(n0 + 64) =~= mid);
            assert(cb.lookups@.take(n0) =~= old(cb).lookups@) by {
                assert(mid.take(n0) =~= cb.lookups@.take(n0));
            }
            assert(cb.lookups@.skip(n0).take(64) =~= mid.skip(n0));
            assert(cb.lookups@.skip(n0 + 64) =~= cb.lookups@.skip(mid.len() as int));
            assert(ops@ =~= bitwise_opcodes());
            assert(cb.constraints@ =~= old(cb).constraints@ + bitwise_constraints(s, p1, p2, nibbles@));
            assert(cb.requirements@ =~= old(cb).requirements@ + seq![
                req(RowScope::NotLast, None, Requirement::NoStackPush),
                req(RowScope::NotLast, None, Requirement::StateTransition(StateField::Sp, Transition::Same)),
                req(RowScope::All, None, Requirement::NoLocalOp),
                req(RowScope::Last, None, Requirement::NoStackPop),
            ] + transition_records(RowScope::Last, None, pop_two_exit()));
        }
        Bitwise { nibbles }
    }

    /// The nibbles of the three values, in the order of the rows: the second
    /// operand, the first operand, the result.
    pub fn assign(&self, lhs: &U256, rhs: &U256, out: &U256) -> (r: ([u8; 64], [u8; 64], [u8; 64]))
        ensures
            forall|j: int| 0 <= j < 64 ==> r.0@[j] as nat == #[trigger] nibble_of(*rhs, j),
            forall|j: int| 0 <= j < 64 ==> r.1@[j] as nat == #[trigger] nibble_of(*lhs, j),
            forall|j: int| 0 <= j < 64 ==> r.2@[j] as nat == #[trigger] nibble_of(*out, j),
    {
        (rhs.to_nibbles(), lhs.to_nibbles(), out.to_nibbles())
    }
}

/// The first stage of the bitwise instructions over `R` rows of `C` nibbles:
/// it pops both operands, pushes the result and ties the three values to the
/// nibble cells of the rows that follow.
#[derive(Debug)]
pub struct BitwiseStage1<const R: usize, const C: usize> {
    pub lhs_nibbles: Vec<Cell>,
    pub rhs_nibbles: Vec<Cell>,
    pub out_nibbles: Vec<Cell>,
}

pub open spec fn bitwise_stage1_constraints(r: nat, s: StepState, p: StepState, lhs: Seq<Cell>, rhs: Seq<Cell>,
    out: Seq<Cell>) -> Seq<Constraint> {
    let l = limbs_are_nibbles(e_cell(s.stack_pop_value.cells[0]), e_cell(s.stack_pop_value.cells[1]), rows_cells(lhs, 1, r as int));
    let rr = limbs_are_nibbles(e_cell(p.stack_pop_value.cells[0]), e_cell(p.stack_pop_value.cells[1]), rows_cells(rhs, 1, r as int));
    let o = limbs_are_nibbles(e_cell(s.stack_push_value.cells[0]), e_cell(s.stack_push_value.cells[1]), rows_cells(out, 1, r as int));
    seq![
        at(RowScope::First, "opcode in OPCODES", e_in_set(e_cell(s.opcode), e_opcodes(bitwise_opcodes()))),
        at(RowScope::First, "step_counter(0) == 2", e_sub(e_cell(s.step_counter), e_const(2))),
        at(RowScope::All, "stack_pop_index(0) == sp(0) + step_counter(0) - 2",
            e_sub(e_cell(s.stack_pop_index), e_sub(e_add(e_cell(s.sp), e_cell(s.step_counter)), e_const(2)))),
        at(RowScope::All, "stack_pop_sub_index(0) == 0", e_cell(s.stack_pop_sub_index)),
        at(RowScope::All, "stack_pop_value_header(0) == false", e_cell(s.stack_pop_value_header)),
        at(RowScope::Last, "stack_push_index(0) == stack_pop_index", e_sub(e_cell(s.stack_push_index), e_cell(s.stack_pop_index))),
        at(RowScope::Last, "stack_push_sub_index(0) == 0", e_cell(s.stack_push_sub_index)),
        at(RowScope::Last, "stack_push_value_header(0) == false", e_cell(s.stack_push_value_header)),
        at(RowScope::Last, "stack_push_version(0) == clk(0)", e_sub(e_cell(s.stack_push_version), e_cell(s.clk))),
        at(RowScope::Last, "lhs.lo = from_limbs(nibbles_lhs[0..32])", l.0),
        at(RowScope::Last, "lhs.hi = from_limbs(nibbles_lhs[32..])", l.1),
        at(RowScope::Last, "rhs.lo = from_limbs(nibbles_rhs[0..32])", rr.0),
        at(RowScope::Last, "rhs.hi = from_limbs(nibbles_rhs[32..])", rr.1),
        at(RowScope::Last, "out.lo = from_limbs(nibbles[0..32])", o.0),
        at(RowScope::Last, "out.hi = from_limbs(nibbles[32..])", o.1),
    ]
}

/// The pc and the stack pointer carry over into the second stage.
pub open spec fn stage1_exit() -> Seq<(StateField, Transition)> {
    seq![(StateField::Pc, Transition::Same), (StateField::Sp, Transition::Same)]
}

/// The nibble cells of each row of the second stage: rows `1 .. R` after the
/// last row of the first.
fn stage2_rows(cells: &Vec<Cell>, r: usize) -> (v: Vec<Cell>)
    requires
        1 <= r <= 64,
        forall|i: int| 0 <= i < cells@.len() ==> #[trigger] cells@[i].rotation == 0,
    ensures
        v@ == rows_cells(cells@, 1, r as int),
{
    gather_rows(cells, 1, r as i32)
}

proof fn lemma_rows_cells_len(cells: Seq<Cell>, lo: int, hi: int)
    requires
        lo <= hi,
    ensures
        rows_cells(cells, lo, hi).len() == (hi - lo) * cells.len(),
    decreases hi - lo,
{
    if hi > lo {
        lemma_rows_cells_len(cells, lo, hi - 1);
        assert(rotated_cells(cells, hi - 1).len() == cells.len());
        assert(rows_cells(cells, lo, hi) == rows_cells(cells, lo, hi - 1) + rotated_cells(cells, hi - 1));
        let n = cells.len() as int;
        assert((hi - 1 - lo) * n + n == (hi - lo) * n) by (nonlinear_arith);
    } else {
        let n = cells.len() as int;
        assert((hi - lo) * n == 0) by (nonlinear_arith) requires hi == lo;
    }
}

impl<const R: usize, const C: usize> BitwiseStage1<R, C> {
    pub fn configure(cb: &mut ConstraintBuilder) -> (r: Self)
        requires
            R * C == 64,
            C <= 32,
            old(cb).wf(),
            old(cb).scope == RowScope::All,
            old(cb).condition is None,
            old(cb).has_room(3 * C as nat),
        ensures
            final(cb).wf(),
            final(cb).scope == RowScope::All,
            final(cb).condition is None,
            final(cb).curr == old(cb).curr,
            final(cb).lookups == old(cb).lookups,
            final(cb).next_column == old(cb).next_column + 3 * C,
            r.lhs_nibbles@.len() == C && r.rhs_nibbles@.len() == C && r.out_nibbles@.len() == C,
            fresh_cells(r.lhs_nibbles@, old(cb).next_column as nat),
            fresh_cells(r.rhs_nibbles@, (old(cb).next_column + C) as nat),
            fresh_cells(r.out_nibbles@, (old(cb).next_column + 2 * C) as nat),
            final(cb).constraints@ == old(cb).constraints@ + bitwise_stage1_constraints(R as nat, old(cb).curr,
                old(cb).curr.spec_at_offset(-1), r.lhs_nibbles@, r.rhs_nibbles@, r.out_nibbles@),
            final(cb).requirements@.len() == old(cb).requirements@.len() as int + 6,
            final(cb).requirements@.take(old(cb).requirements@.len() as int + 3) == old(cb).requirements@ + seq![
                req(RowScope::First, None, Requirement::NoStackPush),
                req(RowScope::First, None, Requirement::StateTransition(StateField::Sp, Transition::Same)),
                req(RowScope::All, None, Requirement::NoLocalOp),
            ],
            final(cb).requirements@[old(cb).requirements@.len() as int + 3].scope == RowScope::Last,
            final(cb).requirements@[old(cb).requirements@.len() as int + 3].condition is None,
            final(cb).requirements@[old(cb).requirements@.len() as int + 3].requirement matches Requirement::NextStates(v)
                && v@ == seq![ExecutionState::BitwiseStage2],
            final(cb).requirements@.skip(old(cb).requirements@.len() as int + 4) == transition_records(RowScope::Last, None, stage1_exit()),
    {
        let s = cb.curr;
        let p = cb.step_state_at_offset(-1);
        let lhs_nibbles = cb.query_cells(C);
        let rhs_nibbles = cb.query_cells(C);
        let out_nibbles = cb.query_cells(C);

        let prev = cb.scope_begin(RowScope::First);
        let ops = bitwise_opcode_array();
        cb.require_in_set("opcode in OPCODES", s.opcode.expr(), opcode_exprs(&ops));
        cb.require_equal("step_counter(0) == 2", s.step_counter.expr(), Expression::constant(2));
        cb.scope_end(prev);

        cb.require_equal(
            "stack_pop_index(0) == sp(0) + step_counter(0) - 2",
            s.stack_pop_index.expr(),
            Expression::sub(Expression::add(s.sp.expr(), s.step_counter.expr()), Expression::constant(2)),
        );
        cb.require_zero("stack_pop_sub_index(0) == 0", s.stack_pop_sub_index.expr());
        cb.require_zero("stack_pop_value_header(0) == false", s.stack_pop_value_header.expr());

        let prev = cb.scope_begin(RowScope::First);
        cb.require_no_stack_push();
        cb.require_state_transition(StateField::Sp, Transition::Same);
        cb.scope_end(prev);

        cb.require_no_local_op();

        let prev = cb.scope_begin(RowScope::Last);
        cb.require_equal("stack_push_index(0) == stack_pop_index", s.stack_push_index.expr(), s.stack_pop_index.expr());
        cb.require_zero("stack_push_sub_index(0) == 0", s.stack_push_sub_index.expr());
        cb.require_zero("stack_push_value_header(0) == false", s.stack_push_value_header.expr());
        cb.require_equal("stack_push_version(0) == clk(0)", s.stack_push_version.expr(), s.clk.expr());

        proof {
            lemma_rows_cells_len(lhs_nibbles@, 1, R as int);
            lemma_rows_cells_len(rhs_nibbles@, 1, R as int);
            lemma_rows_cells_len(out_nibbles@, 1, R as int);
            assert((R - 1) * C == 64 - C) by (nonlinear_arith) requires R * C == 64;
            assert(1 <= R <= 64) by (nonlinear_arith) requires R * C == 64;
        }
        let lhs = s.stack_pop_value.as_integer();
        let nibbles_lhs = stage2_rows(&lhs_nibbles, R);
        require_nibbles_at_least(cb, "lhs.lo = from_limbs(nibbles_lhs[0..32])", "lhs.hi = from_limbs(nibbles_lhs[32..])",
            lhs.lo(), lhs.hi(), &nibbles_lhs);
        let rhs = p.stack_pop_value.as_integer();
        let nibbles_rhs = stage2_rows(&rhs_nibbles, R);
        require_nibbles_at_least(cb, "rhs.lo = from_limbs(nibbles_rhs[0..32])", "rhs.hi = from_limbs(nibbles_rhs[32..])",
            rhs.lo(), rhs.hi(), &nibbles_rhs);
        let out = s.stack_push_value.as_integer();
        let nibbles_out = stage2_rows(&out_nibbles, R);
        require_nibbles_at_least(cb, "out.lo = from_limbs(nibbles[0..32])", "out.hi = from_limbs(nibbles[32..])",
            out.lo(), out.hi(), &nibbles_out);
        cb.scope_end(prev);

        let prev = cb.scope_begin(RowScope::Last);
        let ghost before = cb.requirements@;
        cb.require_next_state(ExecutionState::BitwiseStage2);
        let exit = vec![(StateField::Pc, Transition::Same), (StateField::Sp, Transition::Same)];
        proof {
            assert(exit@ =~= stage1_exit());
        }
        let ghost mid = cb.requirements@;
        cb.require_state_transitions(exit);
        cb.scope_end(prev);
        proof {
            let k = old(cb).requirements@.len() as int;
            assert(before =~= old(cb).requirements@ + seq![
                req(RowScope::First, None, Requirement::NoStackPush),
                req(RowScope::First, None, Requirement::StateTransition(StateField::Sp, Transition::Same)),
                req(RowScope::All, None, Requirement::NoLocalOp),
            ]);
            assert(cb.requirements@.take(k + 3) =~= before) by {
                assert(mid.drop_last() == before);
                assert(cb.requirements@.take(k + 4) =~= mid);
            }
            assert(cb.requirements@[k + 3] == mid[k + 3]);
            assert(cb.requirements@.skip(k + 4) =~= transition_records(RowScope::Last, None, stage1_exit()));
            assert(ops@ =~= bitwise_opcodes());
            assert(cb.constraints@ =~= old(cb).constraints@ + bitwise_stage1_constraints(R as nat, s, p,
                lhs_nibbles@, rhs_nibbles@, out_nibbles@));
        }
        BitwiseStage1 { lhs_nibbles, rhs_nibbles, out_nibbles }
    }
}

/// `lo == from_limbs(nibbles[..32])` and `hi == from_limbs(nibbles[32..])`,
/// for 32 to 64 nibble cells.
fn require_nibbles_at_least(cb: &mut ConstraintBuilder, name_lo: &'static str, name_hi: &'static str, lo: Expression,
    hi: Expression, nibbles: &Vec<Cell>)
    requires
        32 <= nibbles@.len() <= 64,
    ensures
        final(cb).constraints@ == old(cb).constraints@ + seq![
            old(cb).spec_constraint(name_lo, limbs_are_nibbles(lo, hi, nibbles@).0),
            old(cb).spec_constraint(name_hi, limbs_are_nibbles(lo, hi, nibbles@).1),
        ],
        final(cb).only_constraints_changed(*old(cb)),
{
    let (a, b) = nibbles.as_slice().split_at(32);
    proof {
        assert(a@ =~= nibbles@.take(32));
        assert(b@ =~= nibbles@.skip(32));
    }
    cb.require_equal(name_lo, lo, nibbles_expr(a));
    cb.require_equal(name_hi, hi, nibbles_expr(b));
    proof {
        assert(cb.constraints@ =~= old(cb).constraints@ + seq![
            old(cb).spec_constraint(name_lo, limbs_are_nibbles(lo, hi, nibbles@).0),
            old(cb).spec_constraint(name_hi, limbs_are_nibbles(lo, hi, nibbles@).1),
        ]);
    }
}

/// The second stage of the bitwise instructions: `R` rows, each looking up `C`
/// nibbles of the operands and the result in the bitwise table.
#[derive(Debug)]
pub struct BitwiseStage2<const R: usize, const C: usize> {
    pub lhs_nibbles: Vec<Cell>,
    pub rhs_nibbles: Vec<Cell>,
    pub out_nibbles: Vec<Cell>,
}

/// The nibbles of `v` laid out in rows of `c`: row `i` holds nibbles
/// `i * c .. (i + 1) * c`.
pub open spec fn nibble_rows_ok(rows: Seq<Vec<u8>>, v: U256, r: nat, c: nat) -> bool {
    &&& rows.len() == r
    &&& forall|i: int| 0 <= i < r ==> (#[trigger] rows[i])@.len() == c
    &&& forall|i: int, j: int| 0 <= i < r && 0 <= j < c ==> #[trigger] rows[i]@[j] as nat == nibble_of(v, i * c + j)
}

fn nibble_rows(v: &U256, r: usize, c: usize) -> (rows: Vec<Vec<u8>>)
    requires
        r * c == 64,
    ensures
        nibble_rows_ok(rows@, *v, r as nat, c as nat),
{
    let nibbles = v.to_nibbles();
    let mut rows: Vec<Vec<u8>> = Vec::new();
    let mut i: usize = 0;
    while i < r
        invariant
            i <= r,
            r * c == 64,
            forall|j: int| 0 <= j < 64 ==> nibbles@[j] as nat == #[trigger] nibble_of(*v, j),
            rows@.len() == i,
            forall|k: int| 0 <= k < i ==> (#[trigger] rows@[k])@.len() == c,
            forall|k: int, j: int| 0 <= k < i && 0 <= j < c ==> #[trigger] rows@[k]@[j] as nat == nibble_of(*v, k * c + j),
        decreases r - i,
    {
        let mut row: Vec<u8> = Vec::new();
        let mut j: usize = 0;
        while j < c
            invariant
                i < r,
                j <= c,
                r * c == 64,
                forall|t: int| 0 <= t < 64 ==> nibbles@[t] as nat == #[trigger] nibble_of(*v, t),
                row@.len() == j,
                forall|t: int| 0 <= t < j ==> row@[t] as nat == nibble_of(*v, i * c + t),
            decreases c - j,
        {
            assert(i * c + j < 64) by (nonlinear_arith)
                requires i < r, j < c, r * c == 64;
            row.push(nibbles[i * c + j]);
            j = j + 1;
        }
        rows.push(row);
        i = i + 1;
    }
    rows
}

impl<const R: usize, const C: usize> BitwiseStage2<R, C> {
    pub fn configure(cb: &mut ConstraintBuilder) -> (r: Self)
        requires
            R * C == 64,
            old(cb).wf(),
            old(cb).scope == RowScope::All,
            old(cb).condition is None,
            old(cb).has_room(3 * C as nat),
        ensures
            final(cb).wf(),
            final(cb).scope == RowScope::All,
            final(cb).condition is None,
            final(cb).curr == old(cb).curr,
            final(cb).next_column == old(cb).next_column + 3 * C,
            r.lhs_nibbles@.len() == C && r.rhs_nibbles@.len() == C && r.out_nibbles@.len() == C,
            fresh_cells(r.lhs_nibbles@, old(cb).next_column as nat),
            fresh_cells(r.rhs_nibbles@, (old(cb).next_column + C) as nat),
            fresh_cells(r.out_nibbles@, (old(cb).next_column + 2 * C) as nat),
            final(cb).constraints@ == old(cb).constraints@.push(
                at(RowScope::First, "step_counter(0) == R", e_sub(e_cell(old(cb).curr.step_counter), e_const(R as u128)))),
            final(cb).lookups@.len() == old(cb).lookups@.len() + C,
            final(cb).lookups@.take(old(cb).lookups@.len() as int) == old(cb).lookups@,
            bitwise_records(final(cb).lookups@.skip(old(cb).lookups@.len() as int), e_cell(old(cb).curr.opcode),
                r.lhs_nibbles@, r.rhs_nibbles@, r.out_nibbles@, RowScope::All),
            final(cb).requirements@.len() == old(cb).requirements@.len() + 6,
            final(cb).requirements@.take(old(cb).requirements@.len() as int) == old(cb).requirements@,
            final(cb).requirements@[old(cb).requirements@.len() as int].scope == RowScope::First,
            final(cb).requirements@[old(cb).requirements@.len() as int].condition is None,
            final(cb).requirements@[old(cb).requirements@.len() as int].requirement matches Requirement::PrevStates(v)
                && v@ == seq![ExecutionState::BitwiseStage1],
            final(cb).requirements@.skip(old(cb).requirements@.len() as int + 1) == seq![
                req(RowScope::All, None, Requirement::NoStackPop),
                req(RowScope::All, None, Requirement::NoStackPush),
                req(RowScope::All, None, Requirement::NoLocalOp),
            ] + transition_records(RowScope::Last, None, pop_two_exit()),
    {
        let s = cb.curr;
        let lhs_nibbles = cb.query_cells(C);
        let rhs_nibbles = cb.query_cells(C);
        let out_nibbles = cb.query_cells(C);

        let prev = cb.scope_begin(RowScope::First);
        let ghost k = cb.requirements@.len() as int;
        cb.require_prev_state(ExecutionState::BitwiseStage1);
        let ghost mid = cb.requirements@;
        cb.require_equal("step_counter(0) == R", s.step_counter.expr(), Expression::constant(R as u128));
        cb.scope_end(prev);

        cb.require_no_stack_pop();
        cb.require_no_stack_push();
        cb.require_no_local_op();

        lookup_bitwise(cb, &s.opcode.expr(), &lhs_nibbles, &rhs_nibbles, &out_nibbles);

        let prev = cb.scope_begin(RowScope::Last);
        cb.require_state_transitions(pop_two_exit_vec());
        cb.scope_end(prev);
        proof {
            assert(cb.requirements@.take(k) =~= old(cb).requirements@) by {
                assert(mid.drop_last() == old(cb).requirements@);
                assert(cb.requirements@.take(k + 1) =~= mid);
                assert(mid.take(k) =~= cb.requirements@.take(k));
            }
            assert(cb.requirements@[k] == mid[k]);
            assert(cb.requirements@.skip(k + 1) =~= seq![
                req(RowScope::All, None, Requirement::NoStackPop),
                req(RowScope::All, None, Requirement::NoStackPush),
                req(RowScope::All, None, Requirement::NoLocalOp),
            ] + transition_records(RowScope::Last, None, pop_two_exit()));
        }
        BitwiseStage2 { lhs_nibbles, rhs_nibbles, out_nibbles }
    }

    /// The nibble cells of each row: row `i` holds nibbles `i * C ..` of the
    /// first operand, the second operand and the result.
    pub fn assign(&self, lhs: &U256, rhs: &U256, out: &U256) -> (r: (Vec<Vec<u8>>, Vec<Vec<u8>>, Vec<Vec<u8>>))
        requires
            R * C == 64,
        ensures
            nibble_rows_ok(r.0@, *lhs, R as nat, C as nat),
            nibble_rows_ok(r.1@, *rhs, R as nat, C as nat),
            nibble_rows_ok(r.2@, *out, R as nat, C as nat),
    {
        (nibble_rows(lhs, R, C), nibble_rows(rhs, R, C), nibble_rows(out, R, C))
    }
}

/// A 128-bit limb tied by the nibble constraint to 32 cells that hold
/// nibbles: each cell holds the nibble of the limb at its position.
pub proof fn lemma_limb_nibbles(limb: Expression, cells: Seq<Cell>, w: Witness, row: int)
    requires
        cells.len() == 32,
        eval(e_sub(limb, e_nibbles(cells)), w, row) % (modulus() as int) == 0,
        0 <= eval(limb, w, row) < two_128(),
        forall|i: int| 0 <= i < 32 ==> 0 <= #[trigger] eval(e_cell(cells[i]), w, row) < 16,
    ensures
        forall|i: int| 0 <= i < 32 ==> #[trigger] eval(e_cell(cells[i]), w, row) == digit(eval(limb, w, row) as nat, 4, i as nat),
{
    let x = eval(limb, w, row);
    let es = cell_exprs(cells);
    let vals = evals(es, w, row);
    lemma_eval_from_limbs(es, 4, w, row);
    lemma2_to64();
    lemma_two_128();
    assert(4 * 32 == 128);
    assert forall|i: int| 0 <= i < vals.len() implies 0 <= #[trigger] vals[i] < pow2(4) by {
        assert(vals[i] == eval(e_cell(cells[i]), w, row));
    }
    lemma_weighted_sum_bound(vals, 4);
    let ws = weighted_sum(vals, 4);
    reveal_with_fuel(eval, 2);
    assert(eval(e_sub(limb, e_nibbles(cells)), w, row) == x - ws);
    lemma_modulus_bounds();
    lemma_pow2_strictly_increases(128, 254);
    lemma_small_int_mod_zero(x - ws, modulus() as int);
    let d = Seq::new(32, |j: int| digit(x as nat, 4, j as nat) as int);
    lemma_weighted_sum_digits(x as nat, 4, 32);
    vstd::arithmetic::div_mod::lemma_small_mod(x as nat, pow2(128));
    assert forall|i: int| 0 <= i < d.len() implies 0 <= #[trigger] d[i] < pow2(4) by {
        lemma_pow2_pos(4 * i as nat);
        vstd::arithmetic::div_mod::lemma_mod_bound((x as nat / pow2(4 * i as nat)) as int, pow2(4) as int);
    }
    lemma_weighted_sum_unique(vals, d, 4);
    assert forall|i: int| 0 <= i < 32 implies #[trigger] eval(e_cell(cells[i]), w, row) == digit(x as nat, 4, i as nat) by {
        assert(vals[i] == eval(e_cell(cells[i]), w, row));
        assert(d[i] == digit(x as nat, 4, i as nat));
    }
}

/// A 256-bit value tied by the two limb constraints to 64 cells that hold
/// nibbles: each cell holds the nibble of the value at its position, as
/// `to_nibbles` lays them out.
pub proof fn lemma_value_nibbles(lo: Expression, hi: Expression, cells: Seq<Cell>, w: Witness, row: int)
    requires
        cells.len() == 64,
        eval(limbs_are_nibbles(lo, hi, cells).0, w, row) % (modulus() as int) == 0,
        eval(limbs_are_nibbles(lo, hi, cells).1, w, row) % (modulus() as int) == 0,
        0 <= eval(lo, w, row) < two_128(),
        0 <= eval(hi, w, row) < two_128(),
        forall|i: int| 0 <= i < 64 ==> 0 <= #[trigger] eval(e_cell(cells[i]), w, row) < 16,
    ensures
        forall|j: int| 0 <= j < 64 ==> #[trigger] eval(e_cell(cells[j]), w, row) as nat
            == nibble_of(U256 { lo: eval(lo, w, row) as u128, hi: eval(hi, w, row) as u128 }, j),
{
    let a = cells.take(32);
    let b = cells.skip(32);
    assert forall|i: int| 0 <= i < 32 implies 0 <= #[trigger] eval(e_cell(a[i]), w, row) < 16 by {
        assert(a[i] == cells[i]);
    }
    assert forall|i: int| 0 <= i < 32 implies 0 <= #[trigger] eval(e_cell(b[i]), w, row) < 16 by {
        assert(b[i] == cells[i + 32]);
    }
    lemma_limb_nibbles(lo, a, w, row);
    lemma_limb_nibbles(hi, b, w, row);
    assert forall|j: int| 0 <= j < 64 implies #[trigger] eval(e_cell(cells[j]), w, row) as nat
        == nibble_of(U256 { lo: eval(lo, w, row) as u128, hi: eval(hi, w, row) as u128 }, j) by {
        if j < 32 {
            assert(a[j] == cells[j]);
        } else {
            assert(b[j - 32] == cells[j]);
        }
    }
}

/// `(op, a, b, c)` is a row of the bitwise table.
pub open spec fn in_bitwise_table(op: nat, a: int, b: int, c: int) -> bool {
    &&& a >= 0 && b >= 0 && c >= 0
    &&& exists|i: nat| i < 768 && #[trigger] bitwise_table_row(i) == seq![op, a as nat, b as nat, c as nat]
}

/// The value `lo + hi * 2^128` of two limb expressions on a witness.
pub open spec fn value_at(lo: Expression, hi: Expression, w: Witness, row: int) -> U256 {
    U256 { lo: eval(lo, w, row) as u128, hi: eval(hi, w, row) as u128 }
}

/// A bitwise instruction computes its operation nibble by nibble: when the
/// nibble cells of the first operand, the second operand and the result are
/// tied to the three values by the limb constraints, and each position's
/// `(opcode, lhs, rhs, result)` is a row of the bitwise table, every nibble
/// of the result is the operation applied to the nibbles of the operands.
pub proof fn lemma_bitwise_result(op: Opcode, lhs_lo: Expression, lhs_hi: Expression, lhs: Seq<Cell>,
    rhs_lo: Expression, rhs_hi: Expression, rhs: Seq<Cell>, out_lo: Expression, out_hi: Expression, out: Seq<Cell>,
    w: Witness, row: int)
    requires
        bitwise_table_opcodes().contains(op),
        lhs.len() == 64 && rhs.len() == 64 && out.len() == 64,
        forall|j: int| 0 <= j < 64 ==> #[trigger] in_bitwise_table(op.spec_index() as nat, eval(e_cell(lhs[j]), w, row),
            eval(e_cell(rhs[j]), w, row), eval(e_cell(out[j]), w, row)),
        eval(limbs_are_nibbles(lhs_lo, lhs_hi, lhs).0, w, row) % (modulus() as int) == 0,
        eval(limbs_are_nibbles(lhs_lo, lhs_hi, lhs).1, w, row) % (modulus() as int) == 0,
        eval(limbs_are_nibbles(rhs_lo, rhs_hi, rhs).0, w, row) % (modulus() as int) == 0,
        eval(limbs_are_nibbles(rhs_lo, rhs_hi, rhs).1, w, row) % (modulus() as int) == 0,
        eval(limbs_are_nibbles(out_lo, out_hi, out).0, w, row) % (modulus() as int) == 0,
        eval(limbs_are_nibbles(out_lo, out_hi, out).1, w, row) % (modulus() as int) == 0,
        0 <= eval(lhs_lo, w, row) < two_128() && 0 <= eval(lhs_hi, w, row) < two_128(),
        0 <= eval(rhs_lo, w, row) < two_128() && 0 <= eval(rhs_hi, w, row) < two_128(),
        0 <= eval(out_lo, w, row) < two_128() && 0 <= eval(out_hi, w, row) < two_128(),
    ensures
        forall|j: int| 0 <= j < 64 ==> #[trigger] nibble_of(value_at(out_lo, out_hi, w, row), j) as u64
            == bitwise_result(op, nibble_of(value_at(lhs_lo, lhs_hi, w, row), j) as u64,
                nibble_of(value_at(rhs_lo, rhs_hi, w, row), j) as u64),
        forall|j: int| 0 <= j < 64 ==> {
            let o = #[trigger] nibble_of(value_at(out_lo, out_hi, w, row), j) as u64;
            let a = nibble_of(value_at(lhs_lo, lhs_hi, w, row), j) as u64;
            let b = nibble_of(value_at(rhs_lo, rhs_hi, w, row), j) as u64;
            &&& op == Opcode::BitAnd ==> o == (a & b)
            &&& op == Opcode::BitOr ==> o == (a | b)
            &&& op == Opcode::Xor ==> o == (a ^ b)
        },
{
    let ops = bitwise_table_opcodes();
    assert forall|j: int| 0 <= j < 64 implies {
        &&& 0 <= #[trigger] eval(e_cell(lhs[j]), w, row) < 16
        &&& 0 <= eval(e_cell(rhs[j]), w, row) < 16
        &&& 0 <= eval(e_cell(out[j]), w, row) < 16
        &&& eval(e_cell(out[j]), w, row) == bitwise_result(op, eval(e_cell(lhs[j]), w, row) as u64,
            eval(e_cell(rhs[j]), w, row) as u64)
    } by {
        let a = eval(e_cell(lhs[j]), w, row);
        let b = eval(e_cell(rhs[j]), w, row);
        let c = eval(e_cell(out[j]), w, row);
        assert(in_bitwise_table(op.spec_index() as nat, a, b, c));
        let i = choose|i: nat| i < 768 && #[trigger] bitwise_table_row(i) == seq![op.spec_index() as nat, a as nat, b as nat, c as nat];
        let t = bitwise_table_row(i);
        assert(t[0] == op.spec_index() && t[1] == a && t[2] == b && t[3] == c);
        lemma_bitwise_table_row(i);
        let k = choose|k: int| 0 <= k < ops.len() && ops[k] == op;
        assert(ops[(i / 256) as int] == op) by {
            assert(0 <= i / 256 < 3);
        }
    }
    assert forall|j: int| 0 <= j < 64 implies 0 <= #[trigger] eval(e_cell(lhs[j]), w, row) < 16 by {}
    assert forall|j: int| 0 <= j < 64 implies 0 <= #[trigger] eval(e_cell(rhs[j]), w, row) < 16 by {
        assert(0 <= eval(e_cell(lhs[j]), w, row) < 16);
    }
    assert forall|j: int| 0 <= j < 64 implies 0 <= #[trigger] eval(e_cell(out[j]), w, row) < 16 by {
        assert(0 <= eval(e_cell(lhs[j]), w, row) < 16);
    }
    lemma_value_nibbles(lhs_lo, lhs_hi, lhs, w, row);
    lemma_value_nibbles(rhs_lo, rhs_hi, rhs, w, row);
    lemma_value_nibbles(out_lo, out_hi, out, w, row);
    assert forall|j: int| 0 <= j < 64 implies #[trigger] nibble_of(value_at(out_lo, out_hi, w, row), j) as u64
        == bitwise_result(op, nibble_of(value_at(lhs_lo, lhs_hi, w, row), j) as u64,
            nibble_of(value_at(rhs_lo, rhs_hi, w, row), j) as u64) by {
        assert(eval(e_cell(lhs[j]), w, row) as nat == nibble_of(value_at(lhs_lo, lhs_hi, w, row), j));
        assert(eval(e_cell(rhs[j]), w, row) as nat == nibble_of(value_at(rhs_lo, rhs_hi, w, row), j));
        assert(eval(e_cell(out[j]), w, row) as nat == nibble_of(value_at(out_lo, out_hi, w, row), j));
        assert(0 <= eval(e_cell(lhs[j]), w, row) < 16);
    }
}

} // verus!
