use vstd::prelude::*;
use vstd::seq_lib::*;
use crate::math_gadgets::is_zero::is_zero_checks;
use crate::sub_index::polys_at;
use crate::builder::{Constraint, ConstraintBuilder, RowScope, Requirement, at, e_boolean, req};
use crate::executions::add_sub::cell_at;
use crate::expr::{Cell, Expression, Witness, e_add, e_cell, e_const, e_mul, e_rlc, e_sub, eval, evals, lemma_eval_rlc, rlc_value};
use crate::field::lemma_modulus_bounds;
use vstd::arithmetic::div_mod::{lemma_fundamental_div_mod, lemma_mod_multiples_basic};
use vstd::arithmetic::power2::pow2;
use crate::field::{Fe, fe_lt, fe_rlc, fe_vals, modulus};

use crate::math_gadgets::lt::{LtInteger, e_lt_poly, integer_of_halves};
use crate::step::{StepState, rotate};
use crate::step_witness::LocalOp;
use crate::u256::U256;

verus! {

/// `Nop`: the rows after the program has stopped, which read every local
/// that was touched, each once, in increasing order of the combination of its
/// frame, index and sub index.
#[derive(Debug)]
pub struct Nop {
    pub rlc_lo: Cell,
    pub rlc_hi: Cell,
    pub lt_gadget: LtInteger,
}

/// `2^128`.
pub open spec fn e_two_128() -> Expression {
    Expression::PowerOfTwo(128)
}

/// The constraints of `Nop` other than those of its comparison; `c` is the
/// column of `rlc_lo`.
pub open spec fn nop_constraints(s: StepState, c: int, challenge: Cell) -> Seq<Constraint> {
    seq![
        at(RowScope::All, "opcode = 0", e_cell(s.opcode)),
        at(RowScope::All, "local_write_version(0) == 1", e_sub(e_const(1), e_cell(s.local_write_version))),
        at(RowScope::All, "rlc(local_frame_index, local_index, local_sub_index) == rlc",
            e_sub(e_rlc(seq![e_cell(s.local_frame_index), e_cell(s.local_index), e_cell(s.local_sub_index)], e_cell(challenge)),
                e_add(e_mul(e_cell(cell_at(c + 1)), e_two_128()), e_cell(cell_at(c))))),
    ]
}

impl Nop {
    #[verifier::rlimit(40)]
    pub fn configure(cb: &mut ConstraintBuilder) -> (r: Nop)
        requires
            old(cb).wf(),
            old(cb).scope == RowScope::All,
            old(cb).condition is None,
            old(cb).has_room(37),
        ensures
            final(cb).wf(),
            final(cb).scope == RowScope::All,
            final(cb).condition is None,
            final(cb).curr == old(cb).curr,
            final(cb).next_column == old(cb).next_column + 37,
            r.rlc_lo == cell_at(old(cb).next_column as int),
            r.rlc_hi == cell_at(old(cb).next_column + 1),
            r.lt_gadget.comparison_hi.lt.range.val() == vstd::arithmetic::power2::pow2(128),
            r.lt_gadget.lt_lo.range.val() == vstd::arithmetic::power2::pow2(128),
            r.lt_gadget.comparison_hi.lt.diff@.len() == 16,
            r.lt_gadget.lt_lo.diff@.len() == 16,
            r.lt_gadget.comparison_hi.lt.lt == cell_at(old(cb).next_column + 2),
            r.lt_gadget.lt_lo.lt == cell_at(old(cb).next_column + 20),
            final(cb).lookups@.len() == old(cb).lookups@.len() + 32,
            final(cb).lookups@.take(old(cb).lookups@.len() as int) == old(cb).lookups@,
            final(cb).constraints@ == old(cb).constraints@ + nop_constraints(old(cb).curr, old(cb).next_column as int,
                old(cb).challenge) + seq![
                at(RowScope::NotFirst, "Constrain cell to be a bool", e_boolean(e_cell(r.lt_gadget.comparison_hi.lt.lt))),
                at(RowScope::NotFirst, "lhs - rhs == diff - (lt ⋅ range)",
                    e_lt_poly(e_cell(rotate(r.rlc_hi, -1)), e_cell(r.rlc_hi), r.lt_gadget.comparison_hi.lt.lt,
                        r.lt_gadget.comparison_hi.lt.diff@, 16)),
            ] + polys_at(is_zero_checks(r.lt_gadget.comparison_hi.eq.value, r.lt_gadget.comparison_hi.eq.inverse),
                RowScope::NotFirst, None) + seq![
                at(RowScope::NotFirst, "Constrain cell to be a bool", e_boolean(e_cell(r.lt_gadget.lt_lo.lt))),
                at(RowScope::NotFirst, "lhs - rhs == diff - (lt ⋅ range)",
                    e_lt_poly(e_cell(rotate(r.rlc_lo, -1)), e_cell(r.rlc_lo), r.lt_gadget.lt_lo.lt,
                        r.lt_gadget.lt_lo.diff@, 16)),
                at(RowScope::NotFirst, "prev_rlc < cur_rlc", e_sub(e_add(e_cell(r.lt_gadget.comparison_hi.lt.lt),
                    e_mul(r.lt_gadget.comparison_hi.eq.is_zero, e_cell(r.lt_gadget.lt_lo.lt))), e_const(1))),
            ],
            final(cb).requirements@ == old(cb).requirements@.push(req(RowScope::All, None, Requirement::NoStackPop)),
    {
        let s = cb.curr;
        let ghost c = cb.next_column as int;
        let challenge = cb.challenge;
        cb.require_zero("opcode = 0", s.opcode.expr());
        cb.require_zero(
            "local_write_version(0) == 1",
            Expression::sub(Expression::constant(1), s.local_write_version.expr()),
        );
        let cells = cb.query_cells(2);
        let rlc_lo = cells[0];
        let rlc_hi = cells[1];
        let fields = vec![s.local_frame_index.expr(), s.local_index.expr(), s.local_sub_index.expr()];
        let cur_rlc = Expression::rlc(&fields, &challenge.expr());
        cb.require_no_stack_pop();
        cb.require_equal(
            "rlc(local_frame_index, local_index, local_sub_index) == rlc",
            cur_rlc,
            Expression::add(Expression::mul(rlc_hi.expr(), Expression::pow_of_two(128)), rlc_lo.expr()),
        );
        let ghost c0 = cb.constraints@;
        let prev = cb.scope_begin(RowScope::NotFirst);
        let prev_lo = rlc_lo.at_offset(-1).expr();
        let prev_hi = rlc_hi.at_offset(-1).expr();
        let lt_gadget = LtInteger::construct(cb, prev_lo, prev_hi, rlc_lo.expr(), rlc_hi.expr());
        cb.require_true("prev_rlc < cur_rlc", lt_gadget.expr());
        cb.scope_end(prev);
        proof {
            assert(fields@ =~= seq![e_cell(s.local_frame_index), e_cell(s.local_index), e_cell(s.local_sub_index)]);
            assert(c0 =~= old(cb).constraints@ + nop_constraints(s, c, old(cb).challenge));
        }
        Nop { rlc_lo, rlc_hi, lt_gadget }
    }
}

/// The key by which the locals are ordered: the combination of frame, index
/// and sub index by the challenge `r`, in the field.
pub open spec fn local_key(op: LocalOp, r: int) -> int {
    rlc_value(seq![op.frame_index as int, op.index as int, op.sub_index as int], r) % (modulus() as int)
}

/// The key of a local access.
pub fn local_rlc(op: &LocalOp, r: &Fe) -> (k: Fe)
    ensures
        k.val() == local_key(*op, r.val() as int),
{
    let fields = vec![Fe::from_u64(op.frame_index), Fe::from_u64(op.index), Fe::from_u128(op.sub_index)];
    proof {
        assert(fe_vals(fields@) =~= seq![op.frame_index as int, op.index as int, op.sub_index as int]);
    }
    fe_rlc(&fields, r)
}

/// The key of a local access is its frame index, plus its index times the
/// challenge, plus its sub index times the challenge squared, in the field:
/// every one of the three fields weighs in.
pub proof fn lemma_local_key_formula(op: LocalOp, r: int)
    ensures
        local_key(op, r) == (op.frame_index + r * op.index + r * r * op.sub_index) % (modulus() as int),
{
    let v = seq![op.frame_index as int, op.index as int, op.sub_index as int];
    assert(v.drop_first() =~= seq![op.index as int, op.sub_index as int]);
    assert(v.drop_first().drop_first() =~= seq![op.sub_index as int]);
    assert(v.drop_first().drop_first().drop_first() =~= Seq::<int>::empty());
    reveal_with_fuel(rlc_value, 4);
    assert(rlc_value(v, r) == op.frame_index + r * (op.index + r * (op.sub_index + r * 0)));
    assert(r * (op.index + r * (op.sub_index + r * 0)) == r * op.index + r * r * op.sub_index) by (nonlinear_arith);
}

/// The key that `local_rlc` computes satisfies the constraint of `Nop` that
/// ties the row's local access to its key: on a row whose local cells hold
/// the access's frame index, index and sub index, whose challenge cell holds
/// `r` and whose two key cells hold the key split at `2^128`, the constraint
/// `rlc(local_frame_index, local_index, local_sub_index) == rlc` vanishes in
/// the field.
pub proof fn lemma_local_key_satisfies(s: StepState, c: int, challenge: Cell, op: LocalOp, w: Witness, row: int)
    requires
        eval(e_cell(s.local_frame_index), w, row) == op.frame_index,
        eval(e_cell(s.local_index), w, row) == op.index,
        eval(e_cell(s.local_sub_index), w, row) == op.sub_index,
        eval(e_cell(cell_at(c)), w, row) + eval(e_cell(cell_at(c + 1)), w, row) * pow2(128)
            == local_key(op, eval(e_cell(challenge), w, row)),
    ensures
        eval(nop_constraints(s, c, challenge)[2].poly, w, row) % (modulus() as int) == 0,
{
    let p = modulus() as int;
    lemma_modulus_bounds();
    let r = eval(e_cell(challenge), w, row);
    let fields = seq![e_cell(s.local_frame_index), e_cell(s.local_index), e_cell(s.local_sub_index)];
    lemma_eval_rlc(fields, e_cell(challenge), w, row);
    assert(evals(fields, w, row) =~= seq![op.frame_index as int, op.index as int, op.sub_index as int]);
    let x = rlc_value(seq![op.frame_index as int, op.index as int, op.sub_index as int], r);
    reveal_with_fuel(eval, 3);
    let lo = eval(e_cell(cell_at(c)), w, row);
    let hi = eval(e_cell(cell_at(c + 1)), w, row);
    assert(eval(e_two_128(), w, row) == pow2(128));
    let key = e_add(e_mul(e_cell(cell_at(c + 1)), e_two_128()), e_cell(cell_at(c)));
    assert(nop_constraints(s, c, challenge)[2].poly == e_sub(e_rlc(fields, e_cell(challenge)), key));
    assert(eval(key, w, row) == hi * pow2(128) + lo);
    assert(eval(e_rlc(fields, e_cell(challenge)), w, row) == x);
    assert(eval(nop_constraints(s, c, challenge)[2].poly, w, row) == x - (hi * pow2(128) + lo));
    lemma_fundamental_div_mod(x, p);
    lemma_mod_multiples_basic(x / p, p);
    assert(x - x % p == (x / p) * p) by (nonlinear_arith) requires x == p * (x / p) + x % p;
}

/// Values in nondecreasing order.
pub open spec fn sorted_vals(s: Seq<int>) -> bool {
    forall|i: int, j: int| 0 <= i < j < s.len() ==> s[i] <= s[j]
}

/// Where `k` goes into the sorted `keys` after every key not above it.
fn insert_position(keys: &Vec<Fe>, k: &Fe) -> (pos: usize)
    requires
        sorted_vals(fe_vals(keys@)),
    ensures
        pos <= keys@.len(),
        forall|j: int| 0 <= j < pos ==> keys@[j].val() <= k.val(),
        forall|j: int| pos <= j < keys@.len() ==> keys@[j].val() > k.val(),
{
    let mut pos: usize = 0;
    while pos < keys.len() && !fe_lt(k, &keys[pos])
        invariant
            pos <= keys@.len(),
            forall|j: int| 0 <= j < pos ==> keys@[j].val() <= k.val(),
        decreases keys@.len() - pos,
    {
        pos = pos + 1;
    }
    proof {
        if pos < keys@.len() {
            assert forall|j: int| pos <= j < keys@.len() implies keys@[j].val() > k.val() by {
                if j > pos {
                    assert(fe_vals(keys@)[pos as int] <= fe_vals(keys@)[j]);
                }
            }
        }
    }
    pos
}

/// Inserting at the insert position keeps the keys sorted.
proof fn lemma_insert_sorted(keys: Seq<Fe>, k: Fe, pos: int)
    requires
        sorted_vals(fe_vals(keys)),
        0 <= pos <= keys.len(),
        forall|j: int| 0 <= j < pos ==> keys[j].val() <= k.val(),
        forall|j: int| pos <= j < keys.len() ==> keys[j].val() > k.val(),
    ensures
        sorted_vals(fe_vals(keys.insert(pos, k))),
        fe_vals(keys.insert(pos, k)) == fe_vals(keys).insert(pos, k.val() as int),
{
    assert(fe_vals(keys.insert(pos, k)) =~= fe_vals(keys).insert(pos, k.val() as int));
    let t = fe_vals(keys.insert(pos, k));
    assert forall|i: int, j: int| 0 <= i < j < t.len() implies t[i] <= t[j] by {
        let f = fe_vals(keys);
        if j < pos {
            assert(f[i] <= f[j]);
        } else if j == pos {
            assert(keys[i].val() <= k.val());
        } else if i < pos {
            assert(keys[i].val() <= k.val() && keys[j - 1].val() > k.val());
        } else if i == pos {
            assert(keys[j - 1].val() > k.val());
        } else {
            assert(f[i - 1] <= f[j - 1]);
        }
    }
}

/// The field elements in nondecreasing order (`sort`).
pub fn sort_fe(v: &Vec<Fe>) -> (out: Vec<Fe>)
    ensures
        fe_vals(out@).to_multiset() == fe_vals(v@).to_multiset(),
        out@.len() == v@.len(),
        sorted_vals(fe_vals(out@)),
{
    broadcast use vstd::seq_lib::group_to_multiset_ensures;
    let mut out: Vec<Fe> = Vec::new();
    let mut i: usize = 0;
    while i < v.len()
        invariant
            i <= v@.len(),
            out@.len() == i,
            sorted_vals(fe_vals(out@)),
            fe_vals(out@).to_multiset() == fe_vals(v@.take(i as int)).to_multiset(),
        decreases v.len() - i,
    {
        let k = v[i];
        let pos = insert_position(&out, &k);
        proof {
            lemma_insert_sorted(out@, k, pos as int);
            to_multiset_insert(fe_vals(out@), pos as int, k.val() as int);
            assert(fe_vals(v@.take(i as int + 1)) =~= fe_vals(v@.take(i as int)).push(k.val() as int));
            to_multiset_build(fe_vals(v@.take(i as int)), k.val() as int);
        }
        out.insert(pos, k);
        i = i + 1;
    }
    proof {
        assert(v@.take(v@.len() as int) =~= v@);
    }
    out
}

/// The accesses of `ops` whose key is `k`, in their order in `ops`.
pub open spec fn with_key(ops: Seq<LocalOp>, k: int, r: int) -> Seq<LocalOp>
    decreases ops.len(),
{
    if ops.len() == 0 {
        Seq::empty()
    } else {
        let init = with_key(ops.drop_last(), k, r);
        if local_key(ops.last(), r) == k { init.push(ops.last()) } else { init }
    }
}

/// Inserting an access in front of all the accesses of larger key appends it
/// to those of its own key and leaves the others alone.
proof fn lemma_with_key_insert(s: Seq<LocalOp>, pos: int, x: LocalOp, k: int, r: int)
    requires
        0 <= pos <= s.len(),
        forall|j: int| pos <= j < s.len() ==> local_key(#[trigger] s[j], r) > local_key(x, r),
    ensures
        with_key(s.insert(pos, x), k, r)
            == if local_key(x, r) == k { with_key(s, k, r).push(x) } else { with_key(s, k, r) },
    decreases s.len(),
{
    if pos == s.len() {
        assert(s.insert(pos, x) =~= s.push(x));
        assert(s.push(x).drop_last() =~= s);
    } else {
        let t = s.drop_last();
        assert(s.insert(pos, x) =~= t.insert(pos, x).push(s.last()));
        assert(t.insert(pos, x).push(s.last()).drop_last() =~= t.insert(pos, x));
        assert forall|j: int| pos <= j < t.len() implies local_key(#[trigger] t[j], r) > local_key(x, r) by {
            assert(t[j] == s[j]);
        }
        lemma_with_key_insert(t, pos, x, k, r);
        assert(local_key(s[s.len() - 1], r) > local_key(x, r));
    }
}

/// The witness of one row of `Nop`.
#[derive(Debug)]
pub struct NopRow {
    /// The key of the row's local.
    pub rlc: Fe,
    pub rlc_lo: u128,
    pub rlc_hi: u128,
    /// `(hi_lt, hi_eq, lo_lt)` of the comparison with the previous row's key
    /// (with zero before the first row).
    pub lt: (Fe, Fe, Fe, Fe),
}

impl Nop {
    /// The local accesses of the rows, ordered by key with equal keys in their
    /// order of arrival (`sort_by_key`), in which the rows are then assigned.
    pub fn assign_common(&self, ops: &Vec<LocalOp>, r: &Fe) -> (out: Vec<LocalOp>)
        ensures
            out@.to_multiset() == ops@.to_multiset(),
            out@.len() == ops@.len(),
            sorted_vals(out@.map_values(|op: LocalOp| local_key(op, r.val() as int))),
            forall|k: int| #[trigger] with_key(out@, k, r.val() as int) == with_key(ops@, k, r.val() as int),
    {
        broadcast use vstd::seq_lib::group_to_multiset_ensures;
        let mut keys: Vec<Fe> = Vec::new();
        let mut out: Vec<LocalOp> = Vec::new();
        let mut i: usize = 0;
        while i < ops.len()
            invariant
                i <= ops@.len(),
                keys@.len() == out@.len(),
                out@.len() == i,
                forall|j: int| 0 <= j < keys@.len() ==> #[trigger] keys@[j].val() == local_key(out@[j], r.val() as int),
                sorted_vals(fe_vals(keys@)),
                out@.to_multiset() == ops@.take(i as int).to_multiset(),
                forall|kk: int| #[trigger] with_key(out@, kk, r.val() as int) == with_key(ops@.take(i as int), kk, r.val() as int),
            decreases ops.len() - i,
        {
            let op = ops[i];
            let k = local_rlc(&op, r);
            let pos = insert_position(&keys, &k);
            proof {
                assert forall|j: int| pos <= j < out@.len() implies local_key(#[trigger] out@[j], r.val() as int)
                    > local_key(op, r.val() as int) by {
                    assert(keys@[j].val() == local_key(out@[j], r.val() as int));
                }
                assert forall|kk: int| #[trigger] with_key(out@.insert(pos as int, op), kk, r.val() as int)
                    == with_key(ops@.take(i as int + 1), kk, r.val() as int) by {
                    lemma_with_key_insert(out@, pos as int, op, kk, r.val() as int);
                    assert(ops@.take(i as int + 1).drop_last() =~= ops@.take(i as int));
                }
                lemma_insert_sorted(keys@, k, pos as int);
                to_multiset_insert(out@, pos as int, op);
                assert(ops@.take(i as int + 1) =~= ops@.take(i as int).push(op));
                to_multiset_build(ops@.take(i as int), op);
            }
            keys.insert(pos, k);
            out.insert(pos, op);
            i = i + 1;
        }
        proof {
            assert(ops@.take(ops@.len() as int) =~= ops@);
            let m = out@.map_values(|op: LocalOp| local_key(op, r.val() as int));
            assert(m =~= fe_vals(keys@));
        }
        out
    }

    /// The witness of the rows that read the locals of `ops` (already ordered
    /// by `assign_common`): the keys in nondecreasing order, each split into
    /// 128-bit halves, and the comparison of each key with the one before.
    pub fn assign(&self, ops: &Vec<LocalOp>, r: &Fe) -> (rows: Vec<NopRow>)
        requires
            self.lt_gadget.comparison_hi.lt.range.val() == vstd::arithmetic::power2::pow2(128),
            self.lt_gadget.lt_lo.range.val() == vstd::arithmetic::power2::pow2(128),
        ensures
            rows@.len() == ops@.len(),
            rows@.map_values(|row: NopRow| row.rlc.val() as int).to_multiset()
                == ops@.map_values(|op: LocalOp| local_key(op, r.val() as int)).to_multiset(),
            sorted_vals(rows@.map_values(|row: NopRow| row.rlc.val() as int)),
            forall|i: int| 0 <= i < rows@.len() ==> integer_of_halves((#[trigger] rows@[i]).rlc_lo as nat,
                rows@[i].rlc_hi as nat) == rows@[i].rlc.val(),
            forall|i: int| 0 <= i < rows@.len() ==> {
                let prev = if i == 0 { 0nat } else { rows@[i - 1].rlc.val() };
                (#[trigger] rows@[i]).lt.0.val() + rows@[i].lt.1.val() * rows@[i].lt.2.val()
                    == (if prev < rows@[i].rlc.val() { 1int } else { 0int })
            },
    {
        let mut keys: Vec<Fe> = Vec::new();
        let mut i: usize = 0;
        while i < ops.len()
            invariant
                i <= ops@.len(),
                keys@.len() == i,
                forall|j: int| 0 <= j < i ==> #[trigger] keys@[j].val() == local_key(ops@[j], r.val() as int),
            decreases ops.len() - i,
        {
            keys.push(local_rlc(&ops[i], r));
            i = i + 1;
        }
        proof {
            assert(fe_vals(keys@) =~= ops@.map_values(|op: LocalOp| local_key(op, r.val() as int)));
        }
        let sorted = sort_fe(&keys);
        let mut rows: Vec<NopRow> = Vec::new();
        let mut prev = U256::zero();
        let mut i: usize = 0;
        while i < sorted.len()
            invariant
                i <= sorted@.len(),
                rows@.len() == i,
                self.lt_gadget.comparison_hi.lt.range.val() == vstd::arithmetic::power2::pow2(128),
                self.lt_gadget.lt_lo.range.val() == vstd::arithmetic::power2::pow2(128),
                i == 0 ==> prev.val() == 0,
                i > 0 ==> prev.val() == sorted@[i - 1].val(),
                forall|j: int| 0 <= j < i ==> (#[trigger] rows@[j]).rlc == sorted@[j],
                forall|j: int| 0 <= j < i ==> integer_of_halves((#[trigger] rows@[j]).rlc_lo as nat,
                    rows@[j].rlc_hi as nat) == rows@[j].rlc.val(),
                forall|j: int| 0 <= j < i ==> {
                    let p = if j == 0 { 0nat } else { rows@[j - 1].rlc.val() };
                    (#[trigger] rows@[j]).lt.0.val() + rows@[j].lt.1.val() * rows@[j].lt.2.val()
                        == (if p < rows@[j].rlc.val() { 1int } else { 0int })
                },
            decreases sorted.len() - i,
        {
            let k = sorted[i];
            let word = U256::from_le_bytes(&k.to_repr());
            let lt = self.lt_gadget.assign(prev.lo, prev.hi, word.lo, word.hi);
            proof {
                crate::u256::lemma_two_128();
                assert(integer_of_halves(word.lo as nat, word.hi as nat) == word.val());
                assert(integer_of_halves(prev.lo as nat, prev.hi as nat) == prev.val());
            }
            rows.push(NopRow { rlc: k, rlc_lo: word.lo, rlc_hi: word.hi, lt });
            prev = word;
            i = i + 1;
        }
        proof {
            assert(rows@.map_values(|row: NopRow| row.rlc.val() as int) =~= fe_vals(sorted@));
        }
        rows
    }
}

} // verus!
