use vstd::prelude::*;
use vstd::arithmetic::power2::*;
use vstd::arithmetic::div_mod::*;
use crate::math_gadgets::add::lemma_small_int_mod_zero;
use crate::builder::{Constraint, ConstraintBuilder, RowScope, byte_range_records, e_boolean, fresh_cells, guarded,
    u16_range_records};
use crate::expr::{Cell, Expression, cell_exprs, cell_exprs_of, e_add, e_cell, e_const, e_from_limbs, e_mul, e_sub};
use crate::field::{Fe, fe_invert_or_zero, lemma_modulus_bounds, modulus};
use crate::bytes::{le_value, lemma_le_value_small, lemma_le_value_split};
use crate::expr::{Witness, eval, evals, lemma_eval_from_limbs, weighted_sum};

verus! {

/// `2^16`: the factor of one level of a sub index.
pub const DEPTH_POW_OF_ONE_LEVEL: u64 = 65536;

/// The bits of one limb of a sub index.
pub const N_BITS_ONE_LIMB: u32 = 16;

/// Limb `i` of a sub index, made of bytes `2 i` (low) and `2 i + 1` (high).
pub open spec fn e_limb16(bytes: Seq<Cell>, i: int) -> Expression {
    e_add(e_mul(e_cell(bytes[2 * i + 1]), e_const(256)), e_cell(bytes[2 * i]))
}

/// The first `n` 16-bit limbs of byte cells.
pub open spec fn limb_exprs(bytes: Seq<Cell>, n: nat) -> Seq<Expression> {
    Seq::new(n, |i: int| e_limb16(bytes, i))
}

/// The 16-bit limbs of the byte cells (`get_limbs_from_bytes`).
pub fn get_limbs_from_bytes(bytes: &[Cell], n_limb: usize) -> (r: Vec<Expression>)
    requires
        bytes@.len() >= 2 * n_limb,
    ensures
        r@ == limb_exprs(bytes@, n_limb as nat),
{
    let len = bytes.len();
    let mut r: Vec<Expression> = Vec::new();
    let mut i: usize = 0;
    while i < n_limb
        invariant
            i <= n_limb,
            len == bytes@.len(),
            bytes@.len() >= 2 * n_limb,
            r@ == limb_exprs(bytes@, i as nat),
        decreases n_limb - i,
    {
        assert(i * 2 + 1 < bytes@.len());
        r.push(Expression::add(
            Expression::mul(bytes[i * 2 + 1].expr(), Expression::constant(256)),
            bytes[i * 2].expr(),
        ));
        proof {
            assert(r@ =~= limb_exprs(bytes@, (i + 1) as nat));
        }
        i = i + 1;
    }
    r
}

/// A sub index with the cells that take it apart into 16-bit limbs and mark
/// its depth: `mask[i]` is set for the last nonzero limb `i`.
#[derive(Debug)]
pub struct ExtendedSubIndex<const N_LIMB: usize> {
    pub sub_index: Expression,
    pub bytes: Vec<Cell>,
    pub limbs: Vec<Expression>,
    pub mask: Vec<Cell>,
    pub reverse_limb: Cell,
}

/// The sum of the mask cells.
pub open spec fn e_sum_mask(mask: Seq<Cell>) -> Expression {
    e_from_limbs(cell_exprs(mask), 0)
}

/// The polynomials that `configure` requires to vanish, with their names.
pub open spec fn ext_sub_index_polys(n: nat, sub_index: Expression, limbs: Seq<Expression>, mask: Seq<Cell>,
    reverse_limb: Cell) -> Seq<(&'static str, Expression)> {
    seq![
        ("sub_index == from_limbs(limbs)", e_sub(sub_index, e_from_limbs(limbs, 16))),
        ("sum(mask[i]) == 1 when sub_index != 0", e_mul(sub_index, e_sub(e_sum_mask(mask), e_const(1)))),
    ] + Seq::new(n, |i: int| ("if mask[i] == 1, limbs[i] != 0",
        e_mul(e_cell(mask[i]), e_sub(e_mul(limbs[i], e_cell(reverse_limb)), e_const(1)))))
    + Seq::new((n - 1) as nat, |i: int| ("mask[i] * limbs[i+1] == 0", e_mul(e_cell(mask[i]), limbs[i + 1])))
}

/// The constraints that named polynomials make at `scope` under `condition`.
pub open spec fn polys_at(polys: Seq<(&'static str, Expression)>, scope: RowScope, condition: Option<Expression>)
    -> Seq<Constraint> {
    polys.map_values(|p: (&'static str, Expression)| Constraint { name: p.0, scope, poly: guarded(condition, p.1) })
}

/// The sub index of the parent, from the limbs and the mask of the last
/// nonzero one: `from_limbs(limbs[i] * (1 - mask[i]))`.
pub open spec fn e_parent_sub_index(limbs: Seq<Expression>, mask: Seq<Cell>) -> Expression {
    e_from_limbs(Seq::new(limbs.len(), |i: int| e_mul(limbs[i], e_sub(e_const(1), e_cell(mask[i])))), 16)
}

/// `2^(16 depth)`, read off the mask: `from_limbs(mask) * 2^16 + (1 - sum(mask))`.
pub open spec fn e_depth_pow(mask: Seq<Cell>) -> Expression {
    e_add(e_mul(e_from_limbs(cell_exprs(mask), 16), e_const(DEPTH_POW_OF_ONE_LEVEL as u128)),
        e_sub(e_const(1), e_sum_mask(mask)))
}

/// The witness of an extended sub index: the bytes of the sub index, the mask
/// and the inverse of the last nonzero limb.
#[derive(Debug)]
pub struct ExtendedSubIndexWitness {
    pub bytes: [u8; 32],
    pub mask: Vec<Fe>,
    pub reverse_limb: Fe,
}

/// `w` is the witness of an eight-limb extended sub index for `value`: its
/// bytes, the mask of its depth and the inverse of its last nonzero limb
/// (zero at depth zero).
pub open spec fn ext_sub_index_witness(value: nat, w: ExtendedSubIndexWitness) -> bool {
    let d = depth_of(w.bytes@, 8);
    &&& crate::bytes::le_value(w.bytes@) == value
    &&& w.mask@.len() == 8
    &&& forall|i: int| 0 <= i < 8 ==> (#[trigger] w.mask@[i]).val() == (if d != 0 && i == d - 1 { 1nat } else { 0nat })
    &&& d == 0 ==> w.reverse_limb.val() == 0
    &&& d != 0 ==> (byte_limb(w.bytes@, d - 1) * w.reverse_limb.val()) % modulus() == 1
}

/// 16-bit limb `k` of a byte sequence.
pub open spec fn byte_limb(bytes: Seq<u8>, k: int) -> nat {
    bytes[2 * k + 1] as nat * 256 + bytes[2 * k] as nat
}

/// The depth of a sub index among its first `k` limbs: one more than the
/// position of the last nonzero limb, `0` when they are all zero.
pub open spec fn depth_of(bytes: Seq<u8>, k: nat) -> nat
    decreases k,
{
    if k == 0 {
        0
    } else if byte_limb(bytes, k - 1) != 0 {
        k
    } else {
        depth_of(bytes, (k - 1) as nat)
    }
}

pub proof fn lemma_depth_of_bound(bytes: Seq<u8>, k: nat)
    ensures
        depth_of(bytes, k) <= k,
        depth_of(bytes, k) > 0 ==> byte_limb(bytes, depth_of(bytes, k) - 1) != 0,
        forall|j: int| depth_of(bytes, k) <= j < k ==> byte_limb(bytes, j) == 0,
    decreases k,
{
    if k > 0 {
        lemma_depth_of_bound(bytes, (k - 1) as nat);
    }
}

impl<const N_LIMB: usize> ExtendedSubIndex<N_LIMB> {
    /// The cells of the sub index, without its constraints.
    pub fn construct_without_configure(cb: &mut ConstraintBuilder, sub_index: Expression) -> (r: Self)
        requires
            1 <= N_LIMB <= 16,
            old(cb).has_room(33 + N_LIMB as nat),
        ensures
            r.sub_index == sub_index,
            r.bytes@.len() == 32,
            fresh_cells(r.bytes@, old(cb).next_column as nat),
            r.limbs@ == limb_exprs(r.bytes@, N_LIMB as nat),
            r.mask@.len() == N_LIMB,
            fresh_cells(r.mask@, (old(cb).next_column + 32) as nat),
            r.reverse_limb == (Cell { column: (old(cb).next_column + 32 + N_LIMB) as usize, rotation: 0 }),
            final(cb).next_column == old(cb).next_column + 33 + N_LIMB,
            final(cb).lookups@.len() == old(cb).lookups@.len() + 32,
            final(cb).lookups@.take(old(cb).lookups@.len() as int) == old(cb).lookups@,
            byte_range_records(final(cb).lookups@.skip(old(cb).lookups@.len() as int), r.bytes@, old(cb).scope,
                old(cb).condition),
            final(cb).constraints@ == old(cb).constraints@ + Seq::new(N_LIMB as nat, |i: int|
                old(cb).spec_constraint("Constrain cell to be a bool", e_boolean(e_cell(r.mask@[i])))),
            final(cb).requirements == old(cb).requirements,
            final(cb).curr == old(cb).curr,
            final(cb).scope == old(cb).scope,
            final(cb).condition == old(cb).condition,
    {
        let bytes = cb.query_bytes(32);
        let limbs = get_limbs_from_bytes(bytes.as_slice(), N_LIMB);
        let mask = cb.query_bools(N_LIMB);
        let reverse_limb = cb.query_cell();
        ExtendedSubIndex { sub_index, bytes, limbs, mask, reverse_limb }
    }

    /// Requires the limbs to compose the sub index and the mask to mark its
    /// last nonzero limb.
    pub fn configure(&self, cb: &mut ConstraintBuilder)
        requires
            1 <= N_LIMB <= 16,
            self.limbs@.len() == N_LIMB,
            self.mask@.len() == N_LIMB,
        ensures
            final(cb).constraints@ == old(cb).constraints@ + polys_at(
                ext_sub_index_polys(N_LIMB as nat, self.sub_index, self.limbs@, self.mask@, self.reverse_limb),
                old(cb).scope, old(cb).condition),
            final(cb).only_constraints_changed(*old(cb)),
    {
        let ghost polys = ext_sub_index_polys(N_LIMB as nat, self.sub_index, self.limbs@, self.mask@, self.reverse_limb);
        cb.require_equal("sub_index == from_limbs(limbs)", self.sub_index.copy(), Expression::from_limbs(&self.limbs, 16));
        let mask_exprs = cell_exprs_of(self.mask.as_slice());
        let sum_mask = Expression::sum(&mask_exprs);
        cb.require_zero(
            "sum(mask[i]) == 1 when sub_index != 0",
            Expression::mul(self.sub_index.copy(), Expression::sub(sum_mask, Expression::constant(1))),
        );
        proof {
            assert(cb.constraints@ =~= old(cb).constraints@ + polys_at(polys.take(2), old(cb).scope, old(cb).condition));
        }
        let mut i: usize = 0;
        while i < N_LIMB
            invariant
                1 <= N_LIMB <= 16,
                self.limbs@.len() == N_LIMB,
                self.mask@.len() == N_LIMB,
                i <= N_LIMB,
                polys == ext_sub_index_polys(N_LIMB as nat, self.sub_index, self.limbs@, self.mask@, self.reverse_limb),
                cb.constraints@ == old(cb).constraints@ + polys_at(polys.take(2 + i), old(cb).scope, old(cb).condition),
                cb.only_constraints_changed(*old(cb)),
            decreases N_LIMB - i,
        {
            cb.require_zero(
                "if mask[i] == 1, limbs[i] != 0",
                Expression::mul(
                    self.mask[i].expr(),
                    Expression::sub(Expression::mul(self.limbs[i].copy(), self.reverse_limb.expr()), Expression::constant(1)),
                ),
            );
            proof {
                assert(polys[2 + i as int] == ("if mask[i] == 1, limbs[i] != 0", e_mul(e_cell(self.mask@[i as int]),
                    e_sub(e_mul(self.limbs@[i as int], e_cell(self.reverse_limb)), e_const(1)))));
                assert(polys.take(2 + i + 1) =~= polys.take(2 + i).push(polys[2 + i as int]));
                assert(cb.constraints@ =~= old(cb).constraints@ + polys_at(polys.take(2 + i + 1), old(cb).scope, old(cb).condition));
            }
            i = i + 1;
        }
        let mut i: usize = 0;
        while i < N_LIMB - 1
            invariant
                1 <= N_LIMB <= 16,
                self.limbs@.len() == N_LIMB,
                self.mask@.len() == N_LIMB,
                i <= N_LIMB - 1,
                polys == ext_sub_index_polys(N_LIMB as nat, self.sub_index, self.limbs@, self.mask@, self.reverse_limb),
                cb.constraints@ == old(cb).constraints@ + polys_at(polys.take(2 + N_LIMB + i), old(cb).scope, old(cb).condition),
                cb.only_constraints_changed(*old(cb)),
            decreases N_LIMB - 1 - i,
        {
            cb.require_zero("mask[i] * limbs[i+1] == 0", Expression::mul(self.mask[i].expr(), self.limbs[i + 1].copy()));
            proof {
                let k = 2 + N_LIMB + i;
                assert(polys[k as int] == ("mask[i] * limbs[i+1] == 0", e_mul(e_cell(self.mask@[i as int]), self.limbs@[i + 1])));
                assert(polys.take(k + 1) =~= polys.take(k as int).push(polys[k as int]));
                assert(cb.constraints@ =~= old(cb).constraints@ + polys_at(polys.take(k + 1), old(cb).scope, old(cb).condition));
            }
            i = i + 1;
        }
        proof {
            assert(polys.take(2 + N_LIMB + N_LIMB - 1) =~= polys);
        }
    }

    /// The cells of the sub index and their constraints.
    pub fn construct(cb: &mut ConstraintBuilder, sub_index: Expression) -> (r: Self)
        requires
            1 <= N_LIMB <= 16,
            old(cb).has_room(33 + N_LIMB as nat),
        ensures
            r.sub_index == sub_index,
            r.bytes@.len() == 32,
            fresh_cells(r.bytes@, old(cb).next_column as nat),
            r.limbs@ == limb_exprs(r.bytes@, N_LIMB as nat),
            r.mask@.len() == N_LIMB,
            fresh_cells(r.mask@, (old(cb).next_column + 32) as nat),
            r.reverse_limb == (Cell { column: (old(cb).next_column + 32 + N_LIMB) as usize, rotation: 0 }),
            final(cb).next_column == old(cb).next_column + 33 + N_LIMB,
            final(cb).lookups@.len() == old(cb).lookups@.len() + 32,
            final(cb).lookups@.take(old(cb).lookups@.len() as int) == old(cb).lookups@,
            byte_range_records(final(cb).lookups@.skip(old(cb).lookups@.len() as int), r.bytes@, old(cb).scope,
                old(cb).condition),
            final(cb).constraints@ == old(cb).constraints@ + Seq::new(N_LIMB as nat, |i: int|
                old(cb).spec_constraint("Constrain cell to be a bool", e_boolean(e_cell(r.mask@[i]))))
                + polys_at(ext_sub_index_polys(N_LIMB as nat, sub_index, r.limbs@, r.mask@, r.reverse_limb),
                    old(cb).scope, old(cb).condition),
            final(cb).requirements == old(cb).requirements,
            final(cb).curr == old(cb).curr,
            final(cb).scope == old(cb).scope,
            final(cb).condition == old(cb).condition,
    {
        let s = Self::construct_without_configure(cb, sub_index);
        s.configure(cb);
        s
    }

    /// The sub index with trailing zero limbs dropped and `other` appended:
    /// `sub_index + other * 2^(16 depth)`.
    pub fn concat(&self, other: Expression) -> (r: Expression)
        requires
            self.mask@.len() <= 16,
        ensures
            r == e_add(self.sub_index, e_mul(other, e_depth_pow(self.mask@))),
    {
        let mask_exprs = cell_exprs_of(self.mask.as_slice());
        let sum_mask = Expression::sum(&mask_exprs);
        let depth_pow = Expression::add(
            Expression::mul(Expression::from_limbs(&mask_exprs, 16), Expression::constant(DEPTH_POW_OF_ONE_LEVEL as u128)),
            Expression::sub(Expression::constant(1), sum_mask),
        );
        Expression::add(self.sub_index.copy(), Expression::mul(other, depth_pow))
    }

    /// The sub index of the parent: the limbs with the last nonzero one cleared.
    pub fn get_parent_sub_index(&self) -> (r: Expression)
        requires
            self.limbs@.len() == self.mask@.len(),
            self.mask@.len() <= 16,
        ensures
            r == e_parent_sub_index(self.limbs@, self.mask@),
    {
        let mut v: Vec<Expression> = Vec::new();
        let mut i: usize = 0;
        while i < self.limbs.len()
            invariant
                i <= self.limbs@.len(),
                self.limbs@.len() == self.mask@.len(),
                v@ == Seq::new(i as nat, |k: int| e_mul(self.limbs@[k], e_sub(e_const(1), e_cell(self.mask@[k])))),
            decreases self.limbs.len() - i,
        {
            v.push(Expression::mul(self.limbs[i].copy(), Expression::sub(Expression::constant(1), self.mask[i].expr())));
            proof {
                assert(v@ =~= Seq::new((i + 1) as nat, |k: int| e_mul(self.limbs@[k], e_sub(e_const(1), e_cell(self.mask@[k])))));
            }
            i = i + 1;
        }
        proof {
            assert(v@ =~= Seq::new(self.limbs@.len(), |k: int| e_mul(self.limbs@[k], e_sub(e_const(1), e_cell(self.mask@[k])))));
        }
        Expression::from_limbs(&v, 16)
    }

    /// The witness for the sub index `ref_sub_index`: its bytes, the mask of
    /// its depth among the first eight limbs, and the inverse of the limb
    /// that the mask marks (zero at depth zero).
    pub fn assign(&self, ref_sub_index: &Fe) -> (r: ExtendedSubIndexWitness)
        requires
            1 <= N_LIMB <= 16,
        ensures
            crate::bytes::le_value(r.bytes@) == ref_sub_index.val(),
            r.mask@.len() == N_LIMB,
            forall|i: int| 0 <= i < N_LIMB ==> (#[trigger] r.mask@[i]).val()
                == (if depth_of(r.bytes@, 8) != 0 && i == depth_of(r.bytes@, 8) - 1 { 1nat } else { 0nat }),
            depth_of(r.bytes@, 8) == 0 ==> r.reverse_limb.val() == 0,
            depth_of(r.bytes@, 8) != 0 ==> (byte_limb(r.bytes@, depth_of(r.bytes@, 8) - 1) * r.reverse_limb.val())
                % modulus() == 1,
            N_LIMB == 8 ==> ext_sub_index_witness(ref_sub_index.val(), r),
    {
        let bytes = ref_sub_index.to_repr();
        let mut depth: usize = 0;
        let mut k: usize = 0;
        while k < 8
            invariant
                k <= 8,
                depth == depth_of(bytes@, k as nat),
            decreases 8 - k,
        {
            let limb: u64 = (bytes[2 * k + 1] as u64) * 256 + bytes[2 * k] as u64;
            if limb != 0 {
                depth = k + 1;
            }
            k = k + 1;
        }
        let mut mask: Vec<Fe> = Vec::new();
        let mut i: usize = 0;
        while i < N_LIMB
            invariant
                i <= N_LIMB,
                mask@.len() == i,
                forall|j: int| 0 <= j < i ==> (#[trigger] mask@[j]).val()
                    == (if depth != 0 && j == depth - 1 { 1nat } else { 0nat }),
            decreases N_LIMB - i,
        {
            mask.push(Fe::from_bool(depth != 0 && i == depth - 1));
            i = i + 1;
        }
        proof {
            lemma_depth_of_bound(bytes@, 8);
        }
        let reverse_limb = if depth != 0 {
            let limb: u64 = (bytes[depth * 2 - 1] as u64) * 256 + bytes[depth * 2 - 2] as u64;
            let inv = fe_invert_or_zero(&Fe::from_u64(limb));
            inv
        } else {
            Fe::zero()
        };
        ExtendedSubIndexWitness { bytes, mask, reverse_limb }
    }
}

/// The 16-bit limbs of the first `n` byte pairs.
pub open spec fn pair_limbs(bytes: Seq<u8>, n: nat) -> Seq<int> {
    Seq::new(n, |k: int| byte_limb(bytes, k) as int)
}

/// The 16-bit limbs of byte pairs compose the value of the bytes.
pub proof fn lemma_pair_limbs_value(bytes: Seq<u8>, n: nat)
    requires
        2 * n <= bytes.len(),
    ensures
        weighted_sum(pair_limbs(bytes, n), 16) == le_value(bytes.take(2 * n as int)),
    decreases n,
{
    if n == 0 {
        assert(bytes.take(0).len() == 0);
    } else {
        lemma_pair_limbs_value(bytes, (n - 1) as nat);
        assert(pair_limbs(bytes, n).drop_last() =~= pair_limbs(bytes, (n - 1) as nat));
        let t = bytes.take(2 * n as int);
        let m = (2 * n - 2) as nat;
        lemma_le_value_split(t, m);
        assert(t.take(m as int) =~= bytes.take(m as int));
        let rest = t.skip(m as int);
        assert(rest.len() == 2);
        assert(rest.drop_first().drop_first().len() == 0);
        reveal_with_fuel(le_value, 3);
        assert(le_value(rest) == rest[0] as nat + 256 * (rest.drop_first()[0] as nat + 256 * 0));
        assert(rest[0] == bytes[2 * (n - 1)] && rest.drop_first()[0] == bytes[2 * (n - 1) + 1]);
        assert(16 * (n - 1) == 8 * m) by (nonlinear_arith) requires m == 2 * n - 2, n >= 1;
        let limb = byte_limb(bytes, n - 1) as int;
        assert(pair_limbs(bytes, n).last() == limb);
        vstd::arithmetic::mul::lemma_mul_is_commutative(limb, pow2(16 * (n - 1) as nat) as int);
    }
}

/// The witness that `assign` gives satisfies every constraint of the sub
/// index: for a sub index below `2^128` whose cells hold its bytes, the mask
/// of its depth among the eight limbs and the inverse of its last nonzero
/// limb, every polynomial of `configure` vanishes modulo the field order.
pub proof fn lemma_ext_sub_index_complete(g: ExtendedSubIndex<8>, bytes: Seq<u8>, inverse: nat, w: Witness, row: int)
    requires
        g.bytes@.len() == 32,
        g.limbs@ == limb_exprs(g.bytes@, 8),
        g.mask@.len() == 8,
        bytes.len() == 32,
        le_value(bytes) < pow2(128),
        eval(g.sub_index, w, row) == le_value(bytes),
        forall|i: int| 0 <= i < 32 ==> #[trigger] eval(e_cell(g.bytes@[i]), w, row) == bytes[i],
        forall|i: int| 0 <= i < 8 ==> #[trigger] eval(e_cell(g.mask@[i]), w, row)
            == (if depth_of(bytes, 8) != 0 && i == depth_of(bytes, 8) - 1 { 1int } else { 0int }),
        eval(e_cell(g.reverse_limb), w, row) == inverse,
        depth_of(bytes, 8) != 0 ==> (byte_limb(bytes, depth_of(bytes, 8) - 1) * inverse) % modulus() == 1,
    ensures
        forall|k: int| 0 <= k < ext_sub_index_polys(8, g.sub_index, g.limbs@, g.mask@, g.reverse_limb).len() ==>
            #[trigger] eval(ext_sub_index_polys(8, g.sub_index, g.limbs@, g.mask@, g.reverse_limb)[k].1, w, row)
                % (modulus() as int) == 0,
{
    let polys = ext_sub_index_polys(8, g.sub_index, g.limbs@, g.mask@, g.reverse_limb);
    let d = depth_of(bytes, 8);
    let p = modulus() as int;
    lemma_depth_of_bound(bytes, 8);
    reveal_with_fuel(eval, 4);
    let v = le_value(bytes) as int;
    // the limbs
    assert forall|k: int| 0 <= k < 8 implies #[trigger] eval(g.limbs@[k], w, row) == byte_limb(bytes, k) by {
        assert(g.limbs@[k] == e_limb16(g.bytes@, k));
        assert(eval(e_cell(g.bytes@[2 * k + 1]), w, row) == bytes[2 * k + 1]);
        assert(eval(e_cell(g.bytes@[2 * k]), w, row) == bytes[2 * k]);
    }
    lemma_eval_from_limbs(g.limbs@, 16, w, row);
    assert(evals(g.limbs@, w, row) =~= pair_limbs(bytes, 8));
    lemma_pair_limbs_value(bytes, 8);
    lemma_le_value_small(bytes, 16);
    assert(eval(e_from_limbs(g.limbs@, 16), w, row) == v);
    // the mask sum
    let ms = evals(cell_exprs(g.mask@), w, row);
    lemma_eval_from_limbs(cell_exprs(g.mask@), 0, w, row);
    lemma_mask_sum(ms, d, 8);
    assert forall|i: int| 0 <= i < 8 implies #[trigger] ms[i] == (if d != 0 && i == d - 1 { 1int } else { 0int }) by {
        assert(ms[i] == eval(e_cell(g.mask@[i]), w, row));
    }
    let sum = eval(e_sum_mask(g.mask@), w, row);
    assert(sum == (if d != 0 { 1int } else { 0int }));
    if d == 0 {
        assert forall|k: int| 0 <= k < 8 implies #[trigger] pair_limbs(bytes, 8)[k] == 0 by {}
        lemma_weighted_sum_zero(pair_limbs(bytes, 8), 16);
        assert(v == 0);
    }
    lemma_modulus_bounds();
    assert forall|k: int| 0 <= k < polys.len() implies
        #[trigger] eval(polys[k].1, w, row) % p == 0 by {
        if k == 0 {
            assert(eval(polys[k].1, w, row) == 0);
        } else if k == 1 {
            assert(eval(polys[k].1, w, row) == v * (sum - 1));
            assert(v * (sum - 1) == 0) by (nonlinear_arith) requires v == 0 || sum == 1;
        } else if k < 10 {
            let i = k - 2;
            let mi = eval(e_cell(g.mask@[i]), w, row);
            let li = byte_limb(bytes, i) as int;
            assert(polys[k] == ("if mask[i] == 1, limbs[i] != 0", e_mul(e_cell(g.mask@[i]),
                e_sub(e_mul(g.limbs@[i], e_cell(g.reverse_limb)), e_const(1)))));
            assert(eval(g.limbs@[i], w, row) == li);
            assert(eval(polys[k].1, w, row) == mi * (li * inverse - 1));
            if mi == 0 {
                assert(mi * (li * inverse - 1) == 0) by (nonlinear_arith) requires mi == 0;
            } else {
                assert(i == d - 1);
                assert((li * inverse) % p == 1);
                vstd::arithmetic::div_mod::lemma_fundamental_div_mod(li * inverse, p);
                assert((li * inverse - 1) % p == 0) by {
                    vstd::arithmetic::div_mod::lemma_mod_sub_multiples_vanish(li * inverse - 1, p);
                    vstd::arithmetic::div_mod::lemma_fundamental_div_mod_converse(li * inverse - 1, p,
                        (li * inverse) / p, 0);
                }
                assert(mi == 1);
                let t = li * inverse - 1;
                assert(mi * t == t) by (nonlinear_arith) requires mi == 1;
            }
        } else {
            let i = k - 10;
            let mi = eval(e_cell(g.mask@[i]), w, row);
            let ln = byte_limb(bytes, i + 1) as int;
            assert(polys[k] == ("mask[i] * limbs[i+1] == 0", e_mul(e_cell(g.mask@[i]), g.limbs@[i + 1])));
            assert(eval(g.limbs@[i + 1], w, row) == ln);
            assert(eval(polys[k].1, w, row) == mi * ln);
            if mi != 0 {
                assert(i == d - 1);
                assert(ln == 0);
            }
            assert(mi * ln == 0) by (nonlinear_arith) requires mi == 0 || ln == 0;
        }
    }
}

/// An indicator with at most one set position sums to `1` when set.
proof fn lemma_mask_sum(ms: Seq<int>, d: nat, n: nat)
    requires
        ms.len() == n,
        d <= n,
        forall|i: int| 0 <= i < n ==> #[trigger] ms[i] == (if d != 0 && i == d - 1 { 1int } else { 0int }),
    ensures
        weighted_sum(ms, 0) == (if d != 0 { 1int } else { 0int }),
    decreases n,
{
    lemma2_to64();
    if n > 0 {
        let t = ms.drop_last();
        if d == n {
            assert forall|i: int| 0 <= i < n - 1 implies #[trigger] t[i] == 0int by {
                assert(t[i] == ms[i]);
            }
            lemma_weighted_sum_zero(t, 0);
        } else {
            assert forall|i: int| 0 <= i < n - 1 implies #[trigger] t[i] == (if d != 0 && i == d - 1 { 1int } else { 0int }) by {
                assert(t[i] == ms[i]);
            }
            lemma_mask_sum(t, d, (n - 1) as nat);
        }
        assert(0 * (n - 1) == 0);
    }
}

/// Zero limbs weigh nothing.
proof fn lemma_weighted_sum_zero(vals: Seq<int>, bits: nat)
    requires
        forall|i: int| 0 <= i < vals.len() ==> #[trigger] vals[i] == 0,
    ensures
        weighted_sum(vals, bits) == 0,
    decreases vals.len(),
{
    if vals.len() > 0 {
        let t = vals.drop_last();
        assert forall|i: int| 0 <= i < t.len() implies #[trigger] t[i] == 0 by {
            assert(t[i] == vals[i]);
        }
        lemma_weighted_sum_zero(t, bits);
    }
}

/// An indicator of position `d - 1` weighs `2^(bits (d - 1))`.
pub proof fn lemma_indicator_weight(ms: Seq<int>, d: nat, n: nat, bits: nat)
    requires
        ms.len() == n,
        1 <= d <= n,
        forall|i: int| 0 <= i < n ==> #[trigger] ms[i] == (if i == d - 1 { 1int } else { 0int }),
    ensures
        weighted_sum(ms, bits) == pow2(bits * (d - 1) as nat),
    decreases n,
{
    let t = ms.drop_last();
    assert(weighted_sum(ms, bits) == weighted_sum(t, bits) + ms.last() * pow2(bits * (n - 1) as nat));
    if d == n {
        assert forall|i: int| 0 <= i < n - 1 implies #[trigger] t[i] == 0 by {
            assert(t[i] == ms[i]);
        }
        lemma_weighted_sum_zero(t, bits);
        assert(ms.last() == 1);
        let x = pow2(bits * (n - 1) as nat);
        assert(ms.last() * x == x) by (nonlinear_arith) requires ms.last() == 1;
        assert((n - 1) as nat == (d - 1) as nat);
    } else {
        assert forall|i: int| 0 <= i < n - 1 implies #[trigger] t[i] == (if i == d - 1 { 1int } else { 0int }) by {
            assert(t[i] == ms[i]);
        }
        lemma_indicator_weight(t, d, (n - 1) as nat, bits);
        assert(ms.last() == 0);
        let x = pow2(bits * (n - 1) as nat);
        assert(ms.last() * x == 0) by (nonlinear_arith) requires ms.last() == 0;
    }
}

/// Concatenation appends below the last level: when the mask marks the depth
/// `d` of the sub index (its last nonzero limb, `d - 1`), the factor of the
/// appended part is `2^(16 d)`, so `concat(x)` is `sub_index + x * 2^(16 d)`.
pub proof fn lemma_concat(g: ExtendedSubIndex<8>, x: Expression, d: nat, w: Witness, row: int)
    requires
        g.mask@.len() == 8,
        d <= 8,
        forall|i: int| 0 <= i < 8 ==> #[trigger] eval(e_cell(g.mask@[i]), w, row)
            == (if d != 0 && i == d - 1 { 1int } else { 0int }),
    ensures
        eval(e_depth_pow(g.mask@), w, row) == pow2(16 * d),
        eval(e_add(g.sub_index, e_mul(x, e_depth_pow(g.mask@))), w, row)
            == eval(g.sub_index, w, row) + eval(x, w, row) * pow2(16 * d),
{
    reveal_with_fuel(eval, 4);
    let ms = evals(cell_exprs(g.mask@), w, row);
    assert forall|i: int| 0 <= i < 8 implies #[trigger] ms[i] == (if d != 0 && i == d - 1 { 1int } else { 0int }) by {
        assert(ms[i] == eval(e_cell(g.mask@[i]), w, row));
    }
    lemma_eval_from_limbs(cell_exprs(g.mask@), 0, w, row);
    lemma_eval_from_limbs(cell_exprs(g.mask@), 16, w, row);
    lemma_mask_sum(ms, d, 8);
    lemma2_to64();
    let f = eval(e_from_limbs(cell_exprs(g.mask@), 16), w, row);
    let sum = eval(e_sum_mask(g.mask@), w, row);
    assert(eval(e_depth_pow(g.mask@), w, row) == f * 65536 + (1 - sum));
    if d == 0 {
        assert forall|i: int| 0 <= i < 8 implies #[trigger] ms[i] == 0 by {}
        lemma_weighted_sum_zero(ms, 16);
        assert(16 * d == 0);
        assert(f == 0 && sum == 0);
    } else {
        lemma_indicator_weight(ms, d, 8, 16);
        lemma_pow2_adds(16 * (d - 1) as nat, 16);
        assert(16 * (d - 1) as nat + 16 == 16 * d);
        assert(f == pow2(16 * (d - 1) as nat) && sum == 1);
        assert(f * 65536 == pow2(16 * d));
    }
    let dp = eval(e_depth_pow(g.mask@), w, row);
    assert(eval(e_mul(x, e_depth_pow(g.mask@)), w, row) == eval(x, w, row) * dp);
}

/// Changing one value of a weighted sum changes the sum by the difference at
/// that value's weight.
proof fn lemma_weighted_sum_update(a: Seq<int>, k: int, v: int, bits: nat)
    requires
        0 <= k < a.len(),
    ensures
        weighted_sum(a.update(k, v), bits) == weighted_sum(a, bits) + (v - a[k]) * pow2(bits * k as nat),
    decreases a.len(),
{
    let b = a.update(k, v);
    let n = a.len();
    if k == n - 1 {
        assert(b.drop_last() =~= a.drop_last());
        assert(v * pow2(bits * k as nat) - a[k] * pow2(bits * k as nat) == (v - a[k]) * pow2(bits * k as nat))
            by (nonlinear_arith);
    } else {
        assert(b.drop_last() =~= a.drop_last().update(k, v));
        lemma_weighted_sum_update(a.drop_last(), k, v, bits);
        assert(b.last() == a.last());
    }
}

/// The parent of a sub index drops its last level: when the cells hold the
/// bytes of the sub index and the mask marks its depth `d` (its last nonzero
/// limb, `d - 1`), `get_parent_sub_index` is the sub index (its low 128 bits)
/// less that limb at its weight `2^(16 (d - 1))`, and the sub index itself
/// at depth zero.
pub proof fn lemma_parent_sub_index(g: ExtendedSubIndex<8>, bytes: Seq<u8>, w: Witness, row: int)
    requires
        g.bytes@.len() == 32,
        g.limbs@ == limb_exprs(g.bytes@, 8),
        g.mask@.len() == 8,
        bytes.len() == 32,
        forall|i: int| 0 <= i < 32 ==> #[trigger] eval(e_cell(g.bytes@[i]), w, row) == bytes[i],
        forall|i: int| 0 <= i < 8 ==> #[trigger] eval(e_cell(g.mask@[i]), w, row)
            == (if depth_of(bytes, 8) != 0 && i == depth_of(bytes, 8) - 1 { 1int } else { 0int }),
    ensures
        eval(e_parent_sub_index(g.limbs@, g.mask@), w, row) == le_value(bytes.take(16))
            - (if depth_of(bytes, 8) != 0 {
                byte_limb(bytes, depth_of(bytes, 8) - 1) * pow2(16 * (depth_of(bytes, 8) - 1) as nat)
            } else {
                0
            }),
{
    let d = depth_of(bytes, 8);
    lemma_depth_of_bound(bytes, 8);
    reveal_with_fuel(eval, 4);
    let terms = Seq::new(8, |i: int| e_mul(g.limbs@[i], e_sub(e_const(1), e_cell(g.mask@[i]))));
    let limbs = pair_limbs(bytes, 8);
    assert forall|k: int| 0 <= k < 8 implies #[trigger] eval(g.limbs@[k], w, row) == byte_limb(bytes, k) by {
        assert(g.limbs@[k] == e_limb16(g.bytes@, k));
        assert(eval(e_cell(g.bytes@[2 * k + 1]), w, row) == bytes[2 * k + 1]);
        assert(eval(e_cell(g.bytes@[2 * k]), w, row) == bytes[2 * k]);
    }
    let vals = evals(terms, w, row);
    assert forall|k: int| 0 <= k < 8 implies #[trigger] vals[k]
        == byte_limb(bytes, k) * (1 - eval(e_cell(g.mask@[k]), w, row)) by {
        assert(vals[k] == eval(terms[k], w, row));
        assert(terms[k] == e_mul(g.limbs@[k], e_sub(e_const(1), e_cell(g.mask@[k]))));
        assert(eval(g.limbs@[k], w, row) == byte_limb(bytes, k));
    }
    assert(vals.len() == 8);
    lemma_eval_from_limbs(terms, 16, w, row);
    lemma_pair_limbs_value(bytes, 8);
    assert(eval(e_parent_sub_index(g.limbs@, g.mask@), w, row) == weighted_sum(vals, 16));
    if d == 0 {
        assert forall|k: int| 0 <= k < 8 implies #[trigger] vals[k] == limbs[k] by {
            assert(eval(e_cell(g.mask@[k]), w, row) == 0);
            assert(limbs[k] == byte_limb(bytes, k));
        }
        assert(vals =~= limbs);
        assert(weighted_sum(vals, 16) == le_value(bytes.take(16)));
    } else {
        let k0 = d - 1;
        assert forall|k: int| 0 <= k < 8 implies #[trigger] vals[k] == limbs.update(k0, 0)[k] by {
            assert(limbs[k] == byte_limb(bytes, k));
            if k == k0 {
                assert(eval(e_cell(g.mask@[k]), w, row) == 1);
                assert(vals[k] == byte_limb(bytes, k) * 0);
                assert(vals[k] == 0);
                assert(limbs.update(k0, 0)[k] == 0);
            } else {
                assert(eval(e_cell(g.mask@[k]), w, row) == 0);
                assert(vals[k] == byte_limb(bytes, k) * 1);
                assert(limbs.update(k0, 0)[k] == limbs[k]);
            }
        }
        assert(vals =~= limbs.update(k0, 0));
        lemma_weighted_sum_update(limbs, k0, 0, 16);
        let x = limbs[k0];
        let y = pow2(16 * k0 as nat) as int;
        assert((0 - x) * y == -(x * y)) by (nonlinear_arith);
        assert(weighted_sum(vals, 16) == weighted_sum(limbs, 16) - limbs[k0] * pow2(16 * k0 as nat));
        assert(limbs[k0] == byte_limb(bytes, d - 1));
        assert(k0 as nat == (d - 1) as nat);
    }
}

/// The depth is one more than the last nonzero limb among the first `k`.
proof fn lemma_depth_of_exact(bytes: Seq<u8>, m: nat, k: nat)
    requires
        1 <= m <= k,
        byte_limb(bytes, m - 1) != 0,
        forall|j: int| m <= j < k ==> #[trigger] byte_limb(bytes, j) == 0,
    ensures
        depth_of(bytes, k) == m,
    decreases k,
{
    if k > m {
        assert(byte_limb(bytes, k - 1) == 0);
        lemma_depth_of_exact(bytes, m, (k - 1) as nat);
    }
}

/// The parent undoes a concatenation: for a sub index `v` below `2^128` at
/// depth `d < 8`, the sub index `v + x * 2^(16 d)` that `concat(x)` gives for
/// a level `1 <= x < 2^16` is one level deeper, and when the cells hold its
/// bytes and the mask marks its depth, `get_parent_sub_index` gives back `v`.
pub proof fn lemma_parent_of_concat(g: ExtendedSubIndex<8>, bytes_v: Seq<u8>, x: nat, bytes_c: Seq<u8>, w: Witness,
    row: int)
    requires
        bytes_v.len() == 32,
        le_value(bytes_v) < pow2(128),
        depth_of(bytes_v, 8) < 8,
        1 <= x < 65536,
        bytes_c.len() == 32,
        le_value(bytes_c) == le_value(bytes_v) + x * pow2(16 * depth_of(bytes_v, 8)),
        g.bytes@.len() == 32,
        g.limbs@ == limb_exprs(g.bytes@, 8),
        g.mask@.len() == 8,
        forall|i: int| 0 <= i < 32 ==> #[trigger] eval(e_cell(g.bytes@[i]), w, row) == bytes_c[i],
        forall|i: int| 0 <= i < 8 ==> #[trigger] eval(e_cell(g.mask@[i]), w, row)
            == (if depth_of(bytes_c, 8) != 0 && i == depth_of(bytes_c, 8) - 1 { 1int } else { 0int }),
    ensures
        depth_of(bytes_c, 8) == depth_of(bytes_v, 8) + 1,
        eval(e_parent_sub_index(g.limbs@, g.mask@), w, row) == le_value(bytes_v),
{
    let d = depth_of(bytes_v, 8);
    let v = le_value(bytes_v);
    let c = le_value(bytes_c);
    lemma2_to64();
    lemma_depth_of_bound(bytes_v, 8);
    let lv = pair_limbs(bytes_v, 8);
    let lc = pair_limbs(bytes_c, 8);
    let m = lv.update(d as int, x as int);
    assert forall|i: int| 0 <= i < 8 implies 0 <= #[trigger] lv[i] < pow2(16) by {
        assert(lv[i] == byte_limb(bytes_v, i));
    }
    assert forall|i: int| 0 <= i < 8 implies 0 <= #[trigger] lc[i] < pow2(16) by {
        assert(lc[i] == byte_limb(bytes_c, i));
    }
    assert forall|i: int| 0 <= i < 8 implies 0 <= #[trigger] m[i] < pow2(16) by {
        if i != d {
            assert(m[i] == lv[i]);
        }
    }
    // v and c are the weighted sums of their limbs
    lemma_pair_limbs_value(bytes_v, 8);
    lemma_le_value_small(bytes_v, 16);
    assert(weighted_sum(lv, 16) == v);
    lemma_weighted_sum_update(lv, d as int, x as int, 16);
    assert(lv[d as int] == byte_limb(bytes_v, d as int));
    assert(lv[d as int] == 0);
    assert(weighted_sum(m, 16) == c);
    vstd::arithmetic::power2::lemma_pow2_pos(16 * d);
    crate::expr::lemma_weighted_sum_bound(m, 16);
    assert(c < pow2(128));
    lemma_pair_limbs_value(bytes_c, 8);
    lemma_le_value_small(bytes_c, 16);
    crate::expr::lemma_weighted_sum_unique(lc, m, 16);
    // so the limbs of c are those of v with x at level d
    assert forall|j: int| d + 1 <= j < 8 implies #[trigger] byte_limb(bytes_c, j) == 0 by {
        assert(lc[j] == byte_limb(bytes_c, j));
        assert(m[j] == lv[j]);
        assert(lv[j] == byte_limb(bytes_v, j));
    }
    assert(lc[d as int] == byte_limb(bytes_c, d as int));
    assert(byte_limb(bytes_c, d as int) == x);
    lemma_depth_of_exact(bytes_c, d + 1, 8);
    lemma_parent_sub_index(g, bytes_c, w, row);
}

/// Every level of a sub index above its depth is nonzero, as the levels
/// that borrowing appends always are.
pub open spec fn levels_nonzero(bytes: Seq<u8>) -> bool {
    forall|k: int| 0 <= k < depth_of(bytes, 8) ==> #[trigger] byte_limb(bytes, k) != 0
}

/// The constraints of an extended sub index force its witness: when its
/// cells hold bytes of a sub index whose levels are nonzero, the mask cells
/// are boolean and every polynomial of `configure` vanishes, the mask marks
/// exactly the depth (the last nonzero limb) and the sub index is the value
/// of the bytes' low 128 bits, modulo the field order.
pub proof fn lemma_ext_sub_index_sound(g: ExtendedSubIndex<8>, bytes: Seq<u8>, w: Witness, row: int)
    requires
        g.bytes@.len() == 32,
        g.limbs@ == limb_exprs(g.bytes@, 8),
        g.mask@.len() == 8,
        bytes.len() == 32,
        levels_nonzero(bytes),
        forall|i: int| 0 <= i < 32 ==> #[trigger] eval(e_cell(g.bytes@[i]), w, row) == bytes[i],
        forall|i: int| 0 <= i < 8 ==> #[trigger] eval(e_cell(g.mask@[i]), w, row) == 0
            || eval(e_cell(g.mask@[i]), w, row) == 1,
        forall|k: int| 0 <= k < ext_sub_index_polys(8, g.sub_index, g.limbs@, g.mask@, g.reverse_limb).len() ==>
            #[trigger] eval(ext_sub_index_polys(8, g.sub_index, g.limbs@, g.mask@, g.reverse_limb)[k].1, w, row)
                % (modulus() as int) == 0,
    ensures
        forall|i: int| 0 <= i < 8 ==> #[trigger] eval(e_cell(g.mask@[i]), w, row)
            == (if depth_of(bytes, 8) != 0 && i == depth_of(bytes, 8) - 1 { 1int } else { 0int }),
        eval(g.sub_index, w, row) % (modulus() as int) == le_value(bytes.take(16)),
{
    let polys = ext_sub_index_polys(8, g.sub_index, g.limbs@, g.mask@, g.reverse_limb);
    let d = depth_of(bytes, 8);
    let p = modulus() as int;
    lemma_modulus_bounds();
    lemma2_to64();
    lemma_depth_of_bound(bytes, 8);
    reveal_with_fuel(eval, 4);
    let limbs = pair_limbs(bytes, 8);
    assert forall|k: int| 0 <= k < 8 implies #[trigger] eval(g.limbs@[k], w, row) == byte_limb(bytes, k) by {
        assert(g.limbs@[k] == e_limb16(g.bytes@, k));
        assert(eval(e_cell(g.bytes@[2 * k + 1]), w, row) == bytes[2 * k + 1]);
        assert(eval(e_cell(g.bytes@[2 * k]), w, row) == bytes[2 * k]);
    }
    // the composed limbs are the low 128 bits
    lemma_eval_from_limbs(g.limbs@, 16, w, row);
    assert(evals(g.limbs@, w, row) =~= limbs);
    lemma_pair_limbs_value(bytes, 8);
    let v = le_value(bytes.take(16)) as int;
    assert(eval(e_from_limbs(g.limbs@, 16), w, row) == v);
    crate::bytes::lemma_le_value_bound(bytes.take(16));
    vstd::arithmetic::power2::lemma_pow2_strictly_increases(128, 254);
    assert(8 * bytes.take(16).len() == 128);
    let sv = eval(g.sub_index, w, row);
    assert(eval(polys[0].1, w, row) == sv - v);
    assert((sv - v) % p == 0);
    vstd::arithmetic::div_mod::lemma_fundamental_div_mod(sv - v, p);
    vstd::arithmetic::div_mod::lemma_mod_multiples_vanish((sv - v) / p, v, p);
    vstd::arithmetic::div_mod::lemma_small_mod(v as nat, p as nat);
    assert(sv == v + p * ((sv - v) / p));
    assert(sv % p == v);
    // a set mask bit sits on a nonzero limb followed by a zero one
    assert forall|i: int| 0 <= i < 8 && #[trigger] eval(e_cell(g.mask@[i]), w, row) == 1 implies i == d - 1 by {
        let li = byte_limb(bytes, i) as int;
        let r = eval(e_cell(g.reverse_limb), w, row);
        assert(polys[2 + i] == ("if mask[i] == 1, limbs[i] != 0", e_mul(e_cell(g.mask@[i]),
            e_sub(e_mul(g.limbs@[i], e_cell(g.reverse_limb)), e_const(1)))));
        assert(eval(g.limbs@[i], w, row) == li);
        assert(eval(polys[2 + i].1, w, row) == 1 * (li * r - 1));
        if li == 0 {
            assert(1 * (0 * r - 1) == -1);
            vstd::arithmetic::div_mod::lemma_mod_multiples_vanish(-1, p - 1, p);
            vstd::arithmetic::div_mod::lemma_small_mod((p - 1) as nat, p as nat);
            assert(false);
        }
        assert(i < d);
        if i < 7 {
            let ln = byte_limb(bytes, i + 1) as int;
            assert(polys[10 + i] == ("mask[i] * limbs[i+1] == 0", e_mul(e_cell(g.mask@[i]), g.limbs@[i + 1])));
            assert(eval(g.limbs@[i + 1], w, row) == ln);
            assert(eval(polys[10 + i].1, w, row) == 1 * ln);
            vstd::arithmetic::div_mod::lemma_small_mod(ln as nat, p as nat);
            assert(ln == 0);
            assert(i + 1 >= d);
        }
    }
    let ms = evals(cell_exprs(g.mask@), w, row);
    assert forall|i: int| 0 <= i < 8 implies #[trigger] ms[i] == eval(e_cell(g.mask@[i]), w, row) by {}
    lemma_eval_from_limbs(cell_exprs(g.mask@), 0, w, row);
    if d == 0 {
        assert forall|i: int| 0 <= i < 8 implies #[trigger] eval(e_cell(g.mask@[i]), w, row) == 0 by {
            if eval(e_cell(g.mask@[i]), w, row) == 1 {
                assert(i == d - 1);
            }
        }
    } else {
        assert forall|i: int| 0 <= i < 8 && i != d - 1 implies #[trigger] eval(e_cell(g.mask@[i]), w, row) == 0 by {
            if eval(e_cell(g.mask@[i]), w, row) == 1 {
                assert(i == d - 1);
            }
        }
        let m = eval(e_cell(g.mask@[d - 1]), w, row);
        if m == 0 {
            // then no mask bit is set and the sum is zero, so the sub index is zero
            assert forall|i: int| 0 <= i < 8 implies #[trigger] ms[i] == 0 by {
                if i != d - 1 {
                    assert(eval(e_cell(g.mask@[i]), w, row) == 0);
                }
            }
            lemma_weighted_sum_zero(ms, 0);
            assert(eval(e_sum_mask(g.mask@), w, row) == 0);
            assert(eval(polys[1].1, w, row) == sv * (0 - 1));
            assert(sv * (0 - 1) == -sv) by (nonlinear_arith);
            vstd::arithmetic::div_mod::lemma_mod_sub_multiples_vanish(0, p);
            // -sv = 0 (mod p) gives sv = 0 (mod p), so v = 0
            vstd::arithmetic::div_mod::lemma_fundamental_div_mod(-sv, p);
            vstd::arithmetic::div_mod::lemma_mod_multiples_vanish(-((-sv) / p), sv, p);
            assert(sv == -(p * ((-sv) / p)));
            assert(sv % p == 0) by {
                vstd::arithmetic::div_mod::lemma_mod_multiples_vanish(-((-sv) / p), 0, p);
                assert(0int % p == 0);
            }
            assert(v == 0);
            // but limb d - 1 is nonzero
            let zeros = Seq::new(8, |k: int| 0int);
            lemma_weighted_sum_zero(zeros, 16);
            assert forall|k: int| 0 <= k < 8 implies 0 <= #[trigger] limbs[k] < pow2(16) by {}
            assert forall|k: int| 0 <= k < 8 implies 0 <= #[trigger] zeros[k] < pow2(16) by {}
            crate::expr::lemma_weighted_sum_unique(limbs, zeros, 16);
            assert(limbs[d - 1] == byte_limb(bytes, d - 1));
            assert(false);
        }
    }
}





/// The three polynomials of limb `i` of a membership check (`k == 0`, `1` or
/// `2`), named for a `field` or a `member` sub index.
pub open spec fn membership_limb_poly(field_names: bool, header_limbs: Seq<Expression>, member_limbs: Seq<Expression>,
    mask: Seq<Cell>, reverse: Seq<Cell>, i: int, k: int) -> (&'static str, Expression) {
    if k == 0 {
        (if field_names { "mask[i] * (header_limbs[i] * reverse_limbs[i] - 1) == 0" }
            else { "mask[i] * (header_limbs[i] * reverse_header_limbs[i] - 1) == 0" },
            e_mul(e_cell(mask[i]), e_sub(e_mul(header_limbs[i], e_cell(reverse[i])), e_const(1))))
    } else if k == 1 {
        ("(1 - mask[i]) * header_limbs[i] == 0", e_mul(e_sub(e_const(1), e_cell(mask[i])), header_limbs[i]))
    } else {
        (if field_names { "mask[i] * (header_limbs[i] - field_limbs[i]) == 0" }
            else { "mask[i] * (header_limbs[i] - member_limbs[i]) == 0" },
            e_mul(e_cell(mask[i]), e_sub(header_limbs[i], member_limbs[i])))
    }
}

/// The polynomials of a membership check of `member` below `header`, both
/// given with `n` 16-bit limbs: the limbs compose the sub indexes, the
/// header's limbs are the member's where the mask is set (and nonzero there)
/// and zero elsewhere, and the two sub indexes differ.
pub open spec fn membership_polys(field_names: bool, n: nat, header: Expression, member: Expression,
    header_limbs: Seq<Expression>, member_limbs: Seq<Expression>, mask: Seq<Cell>, reverse: Seq<Cell>,
    reverse_diff: Cell) -> Seq<(&'static str, Expression)> {
    seq![
        ("header_sub_index == from_limbs(header_limbs)", e_sub(header, e_from_limbs(header_limbs, 16))),
        (if field_names { "field_sub_index == from_limbs(&field_limbs)" } else { "member_sub_index == from_limbs(&member_limbs)" },
            e_sub(member, e_from_limbs(member_limbs, 16))),
    ] + Seq::new(3 * n, |j: int| membership_limb_poly(field_names, header_limbs, member_limbs, mask, reverse, j / 3, j % 3))
    + seq![(if field_names { "header_field_diff * reverse_header_field_diff - 1 == 0" }
            else { "header_member_diff * reverse_header_member_diff - 1 == 0" },
        e_sub(e_mul(e_sub(member, header), e_cell(reverse_diff)), e_const(1)))]
}

/// Requires the polynomials of a membership check.
pub fn configure_membership(cb: &mut ConstraintBuilder, field_names: bool, header: Expression, member: Expression,
    header_limbs: &Vec<Expression>, member_limbs: &Vec<Expression>, mask: &Vec<Cell>, reverse: &Vec<Cell>,
    reverse_diff: Cell)
    requires
        header_limbs@.len() <= 16,
        member_limbs@.len() == header_limbs@.len(),
        mask@.len() == header_limbs@.len(),
        reverse@.len() == header_limbs@.len(),
    ensures
        final(cb).constraints@ == old(cb).constraints@ + polys_at(membership_polys(field_names, header_limbs@.len(),
            header, member, header_limbs@, member_limbs@, mask@, reverse@, reverse_diff), old(cb).scope, old(cb).condition),
        final(cb).only_constraints_changed(*old(cb)),
{
    let n = header_limbs.len();
    let ghost polys = membership_polys(field_names, n as nat, header, member, header_limbs@, member_limbs@, mask@,
        reverse@, reverse_diff);
    cb.require_equal("header_sub_index == from_limbs(header_limbs)", header.copy(), Expression::from_limbs(header_limbs, 16));
    let name = if field_names { "field_sub_index == from_limbs(&field_limbs)" } else { "member_sub_index == from_limbs(&member_limbs)" };
    cb.require_equal(name, member.copy(), Expression::from_limbs(member_limbs, 16));
    proof {
        assert(cb.constraints@ =~= old(cb).constraints@ + polys_at(polys.take(2), old(cb).scope, old(cb).condition));
    }
    let mut i: usize = 0;
    while i < n
        invariant
            n == header_limbs@.len(),
            member_limbs@.len() == n,
            mask@.len() == n,
            reverse@.len() == n,
            i <= n,
            polys == membership_polys(field_names, n as nat, header, member, header_limbs@, member_limbs@, mask@,
                reverse@, reverse_diff),
            cb.constraints@ == old(cb).constraints@ + polys_at(polys.take(2 + 3 * i), old(cb).scope, old(cb).condition),
            cb.only_constraints_changed(*old(cb)),
        decreases n - i,
    {
        let m = mask[i];
        let name0 = if field_names { "mask[i] * (header_limbs[i] * reverse_limbs[i] - 1) == 0" }
            else { "mask[i] * (header_limbs[i] * reverse_header_limbs[i] - 1) == 0" };
        cb.require_zero(
            name0,
            Expression::mul(m.expr(), Expression::sub(Expression::mul(header_limbs[i].copy(), reverse[i].expr()),
                Expression::constant(1))),
        );
        cb.require_zero(
            "(1 - mask[i]) * header_limbs[i] == 0",
            Expression::mul(Expression::sub(Expression::constant(1), m.expr()), header_limbs[i].copy()),
        );
        let name2 = if field_names { "mask[i] * (header_limbs[i] - field_limbs[i]) == 0" }
            else { "mask[i] * (header_limbs[i] - member_limbs[i]) == 0" };
        cb.require_zero(name2, Expression::mul(m.expr(), Expression::sub(header_limbs[i].copy(), member_limbs[i].copy())));
        proof {
            let b = 2 + 3 * i as int;
            assert((3 * i as int) / 3 == i && (3 * i as int) % 3 == 0);
            assert((3 * i as int + 1) / 3 == i && (3 * i as int + 1) % 3 == 1);
            assert((3 * i as int + 2) / 3 == i && (3 * i as int + 2) % 3 == 2);
            assert(polys.take(b + 3) =~= polys.take(b).push(polys[b]).push(polys[b + 1]).push(polys[b + 2]));
            assert(cb.constraints@ =~= old(cb).constraints@ + polys_at(polys.take(b + 3), old(cb).scope, old(cb).condition));
        }
        i = i + 1;
    }
    let name3 = if field_names { "header_field_diff * reverse_header_field_diff - 1 == 0" }
        else { "header_member_diff * reverse_header_member_diff - 1 == 0" };
    cb.require_zero(
        name3,
        Expression::sub(Expression::mul(Expression::sub(member, header), reverse_diff.expr()), Expression::constant(1)),
    );
    proof {
        assert(polys.take(2 + 3 * n) =~= polys.drop_last());
        assert(cb.constraints@ =~= old(cb).constraints@ + polys_at(polys, old(cb).scope, old(cb).condition));
    }
}

/// Whenever the polynomials of a membership check vanish, the limbs are 16-bit
/// values and the mask is boolean: the header's limbs are the member's where
/// the mask is set and zero elsewhere, set limbs are nonzero, and the member
/// sub index differs from the header sub index.
pub proof fn lemma_membership_sound(field_names: bool, n: nat, header: Expression, member: Expression,
    header_limbs: Seq<Expression>, member_limbs: Seq<Expression>, mask: Seq<Cell>, reverse: Seq<Cell>,
    reverse_diff: Cell, w: Witness, row: int)
    requires
        header_limbs.len() == n,
        member_limbs.len() == n,
        mask.len() == n,
        reverse.len() == n,
        forall|k: int| 0 <= k < membership_polys(field_names, n, header, member, header_limbs, member_limbs, mask, reverse,
            reverse_diff).len() ==> #[trigger] eval(membership_polys(field_names, n, header, member, header_limbs,
            member_limbs, mask, reverse, reverse_diff)[k].1, w, row) % (modulus() as int) == 0,
        forall|i: int| 0 <= i < n ==> 0 <= #[trigger] eval(header_limbs[i], w, row) < 65536,
        forall|i: int| 0 <= i < n ==> 0 <= #[trigger] eval(member_limbs[i], w, row) < 65536,
        forall|i: int| 0 <= i < n ==> #[trigger] eval(e_cell(mask[i]), w, row) == 0 || eval(e_cell(mask[i]), w, row) == 1,
    ensures
        forall|i: int| 0 <= i < n ==> #[trigger] eval(header_limbs[i], w, row)
            == (if eval(e_cell(mask[i]), w, row) == 1 { eval(member_limbs[i], w, row) } else { 0 }),
        forall|i: int| 0 <= i < n && eval(e_cell(mask[i]), w, row) == 1 ==> #[trigger] eval(header_limbs[i], w, row) != 0,
        (eval(member, w, row) - eval(header, w, row)) % (modulus() as int) != 0,
{
    let polys = membership_polys(field_names, n, header, member, header_limbs, member_limbs, mask, reverse, reverse_diff);
    let p = modulus() as int;
    lemma_modulus_bounds();
    lemma2_to64();
    assert forall|i: int| 0 <= i < n implies #[trigger] eval(header_limbs[i], w, row)
        == (if eval(e_cell(mask[i]), w, row) == 1 { eval(member_limbs[i], w, row) } else { 0 })
        && (eval(e_cell(mask[i]), w, row) == 1 ==> eval(header_limbs[i], w, row) != 0) by {
        reveal_with_fuel(eval, 4);
        let m = eval(e_cell(mask[i]), w, row);
        let h = eval(header_limbs[i], w, row);
        let f = eval(member_limbs[i], w, row);
        let rv = eval(e_cell(reverse[i]), w, row);
        let b = 2 + 3 * i;
        assert((3 * i) / 3 == i && (3 * i) % 3 == 0);
        assert((3 * i + 1) / 3 == i && (3 * i + 1) % 3 == 1);
        assert((3 * i + 2) / 3 == i && (3 * i + 2) % 3 == 2);
        assert(polys[b] == membership_limb_poly(field_names, header_limbs, member_limbs, mask, reverse, i, 0));
        assert(polys[b + 1] == membership_limb_poly(field_names, header_limbs, member_limbs, mask, reverse, i, 1));
        assert(polys[b + 2] == membership_limb_poly(field_names, header_limbs, member_limbs, mask, reverse, i, 2));
        assert(eval(polys[b].1, w, row) % p == 0);
        assert(eval(polys[b + 1].1, w, row) % p == 0);
        assert(eval(polys[b + 2].1, w, row) % p == 0);
        assert(eval(polys[b + 1].1, w, row) == (1 - m) * h);
        assert(eval(polys[b + 2].1, w, row) == m * (h - f));
        assert(eval(polys[b].1, w, row) == m * (h * rv - 1));
        if m == 0 {
            assert((1 - m) * h == h) by (nonlinear_arith) requires m == 0;
            lemma_small_int_mod_zero(h, p);
        } else {
            assert(m * (h - f) == h - f) by (nonlinear_arith) requires m == 1;
            lemma_small_int_mod_zero(h - f, p);
            assert(m * (h * rv - 1) == h * rv - 1) by (nonlinear_arith) requires m == 1;
            if h == 0 {
                assert(h * rv - 1 == -1) by (nonlinear_arith) requires h == 0;
                lemma_mod_multiples_vanish(1, -1, p);
                lemma_small_mod((p - 1) as nat, p as nat);
            }
        }
    }
    let last = polys.len() - 1;
    assert(polys[last].1 == e_sub(e_mul(e_sub(member, header), e_cell(reverse_diff)), e_const(1)));
    assert(eval(polys[last].1, w, row) % p == 0);
    reveal_with_fuel(eval, 4);
    let d = eval(member, w, row) - eval(header, w, row);
    let rv = eval(e_cell(reverse_diff), w, row);
    assert(eval(polys[last].1, w, row) == d * rv - 1);
    if d % p == 0 {
        lemma_mul_mod_noop_left(d, rv, p);
        assert((d % p) * rv == 0) by (nonlinear_arith) requires d % p == 0;
        assert((d * rv) % p == 0);
        lemma_sub_mod_noop(d * rv, 1, p);
        lemma_small_mod(1, p as nat);
        assert(((d * rv) % p - 1int % p) % p == (0int - 1) % p);
        lemma_mod_multiples_vanish(1, -1, p);
        lemma_small_mod((p - 1) as nat, p as nat);
    }
}


/// The limbs read backwards, composed: `limbs[0] * 2^(16 (n - 1)) + ... + limbs[n - 1]`.
pub open spec fn reversed_value(limbs: Seq<int>) -> int
    decreases limbs.len(),
{
    if limbs.len() == 0 { 0 } else { reversed_value(limbs.drop_last()) * 65536 + limbs.last() }
}

/// A first value weighs one; the rest move up one limb.
proof fn lemma_weighted_sum_prepend(x: int, t: Seq<int>, bits: nat)
    ensures
        weighted_sum(seq![x] + t, bits) == x + pow2(bits) * weighted_sum(t, bits),
    decreases t.len(),
{
    let s = seq![x] + t;
    lemma2_to64();
    if t.len() == 0 {
        assert(s.drop_last() =~= Seq::<int>::empty());
        assert(bits * 0 == 0);
        assert(s.len() == 1 && s.last() == x);
        assert(weighted_sum(s, bits) == weighted_sum(s.drop_last(), bits) + x * pow2(bits * 0));
        assert(weighted_sum(t, bits) == 0);
    } else {
        let m = t.len();
        assert(s.drop_last() =~= seq![x] + t.drop_last());
        assert(s.last() == t.last());
        assert(s.len() == m + 1);
        lemma_weighted_sum_prepend(x, t.drop_last(), bits);
        assert(bits * (m - 1) as nat + bits == bits * m) by (nonlinear_arith) requires m >= 1;
        lemma_pow2_adds(bits, bits * (m - 1) as nat);
        let a = weighted_sum(t.drop_last(), bits);
        let pb = pow2(bits) as int;
        let pm = pow2(bits * (m - 1) as nat) as int;
        assert(pow2(bits * m) == pb * pm);
        assert(weighted_sum(s, bits) == (x + pb * a) + t.last() * pow2(bits * m));
        assert(weighted_sum(t, bits) == a + t.last() * pm);
        assert(pb * (a + t.last() * pm) == pb * a + t.last() * (pb * pm)) by (nonlinear_arith);
    }
}

/// Reading the limbs backwards composes the reversed sequence.
pub proof fn lemma_reversed_value(limbs: Seq<int>)
    ensures
        reversed_value(limbs) == weighted_sum(limbs.reverse(), 16),
    decreases limbs.len(),
{
    if limbs.len() > 0 {
        let d = limbs.drop_last();
        lemma_reversed_value(d);
        assert(limbs.reverse() =~= seq![limbs.last()] + d.reverse());
        lemma_weighted_sum_prepend(limbs.last(), d.reverse(), 16);
        lemma2_to64();
    }
}

/// The value of the sub index's eight limbs read backwards, the reversal
/// that `SubIndexReverse` composes.
pub fn reverse_sub_index(sub_index: u128) -> (r: u128)
    ensures
        r == reversed_value(Seq::new(8, |k: int| crate::bytes::digit(sub_index as nat, 16, k as nat) as int)),
{
    let limbs = sub_index_limbs(sub_index, 8);
    let ghost ds = Seq::new(8, |k: int| crate::bytes::digit(sub_index as nat, 16, k as nat) as int);
    let mut acc: u128 = 0;
    let mut k: usize = 0;
    proof {
        lemma2_to64();
        assert(ds.take(0) =~= Seq::<int>::empty());
        assert forall|i: int| 0 <= i < 8 implies #[trigger] limbs@[i] as int == ds[i] by {
            assert(limbs@[i] as nat == crate::bytes::digit(sub_index as nat, 16, i as nat));
        }
    }
    while k < 8
        invariant
            k <= 8,
            limbs@.len() == 8,
            ds == Seq::new(8, |k: int| crate::bytes::digit(sub_index as nat, 16, k as nat) as int),
            forall|i: int| 0 <= i < 8 ==> #[trigger] limbs@[i] as int == ds[i],
            acc == reversed_value(ds.take(k as int)),
            acc < pow2(16 * k as nat),
        decreases 8 - k,
    {
        proof {
            lemma2_to64();
            lemma_pow2_adds(16 * k as nat, 16);
            assert(16 * k as nat + 16 == 16 * (k + 1) as nat);
            lemma_pow2_strictly_increases(16 * (k + 1) as nat, 129);
            if k + 1 < 8 {
                lemma_pow2_strictly_increases(16 * (k + 1) as nat, 128);
            }
            let pk = pow2(16 * k as nat) as int;
            assert(acc * 65536 + 65535 < pk * 65536) by (nonlinear_arith) requires acc < pk, acc >= 0;
            assert(ds.take(k as int + 1).drop_last() =~= ds.take(k as int));
            assert(ds.take(k as int + 1).last() == ds[k as int]);
            assert(limbs@[k as int] as int == ds[k as int]);
            assert(0 <= limbs@[k as int] < 65536);
            assert(pow2(128) == 0x1_0000_0000_0000_0000_0000_0000_0000_0000nat) by {
                lemma_pow2_adds(64, 64);
            }
        }
        acc = acc * 65536 + limbs[k] as u128;
        k = k + 1;
    }
    proof {
        assert(ds.take(8) =~= ds);
    }
    acc
}

/// The first `n` 16-bit limbs of a sub index, lowest first
/// (`SubIndex::to_vec`).
pub fn sub_index_limbs(x: u128, n: usize) -> (r: Vec<u16>)
    requires
        n <= 8,
    ensures
        r@.len() == n,
        forall|i: int| 0 <= i < n ==> #[trigger] r@[i] as nat == crate::bytes::digit(x as nat, 16, i as nat),
{
    let mut r: Vec<u16> = Vec::new();
    let mut i: usize = 0;
    while i < n
        invariant
            i <= n,
            n <= 8,
            r@.len() == i,
            forall|k: int| 0 <= k < i ==> #[trigger] r@[k] as nat == crate::bytes::digit(x as nat, 16, k as nat),
        decreases n - i,
    {
        let sh: u128 = 16 * (i as u128);
        let limb: u16 = ((x >> sh) & 0xffff) as u16;
        proof {
            vstd::bits::lemma_u128_shr_is_div(x, sh);
            let y = x >> sh;
            assert((y & 0xffff) as u16 as nat == y as nat % 65536) by (bit_vector);
            lemma2_to64();
            assert(sh as nat == 16 * (i as nat));
        }
        r.push(limb);
        i = i + 1;
    }
    r
}

/// The limbs of a sub index, read in reverse order: the sub index `[3, 2, 0,
/// 0]` (`0x20003`) reverses to `[0, 0, 2, 3]` (`0x0003000200000000`).
#[derive(Debug)]
pub struct SubIndexReverse<const N_LIMB: usize> {
    pub sub_index: Expression,
    pub limbs: Vec<Cell>,
}

impl<const N_LIMB: usize> SubIndexReverse<N_LIMB> {
    pub fn construct(cb: &mut ConstraintBuilder, sub_index: Expression) -> (r: Self)
        requires
            N_LIMB <= 16,
            old(cb).has_room(N_LIMB as nat),
        ensures
            r.sub_index == sub_index,
            r.limbs@.len() == N_LIMB,
            fresh_cells(r.limbs@, old(cb).next_column as nat),
            final(cb).next_column == old(cb).next_column + N_LIMB,
            final(cb).lookups@.len() == old(cb).lookups@.len() + N_LIMB,
            final(cb).lookups@.take(old(cb).lookups@.len() as int) == old(cb).lookups@,
            u16_range_records(final(cb).lookups@.skip(old(cb).lookups@.len() as int), r.limbs@, old(cb).scope,
                old(cb).condition),
            final(cb).constraints@ == old(cb).constraints@.push(old(cb).spec_constraint("sub_index == from_limbs(limbs)",
                e_sub(sub_index, e_from_limbs(cell_exprs(r.limbs@), 16)))),
            final(cb).requirements == old(cb).requirements,
            final(cb).curr == old(cb).curr,
            final(cb).scope == old(cb).scope,
            final(cb).condition == old(cb).condition,
    {
        let limbs = cb.query_u16s(N_LIMB);
        let exprs = cell_exprs_of(limbs.as_slice());
        cb.require_equal("sub_index == from_limbs(limbs)", sub_index.copy(), Expression::from_limbs(&exprs, 16));
        SubIndexReverse { sub_index, limbs }
    }

    /// The limbs composed in reverse order.
    pub fn expr(&self) -> (r: Expression)
        requires
            self.limbs@.len() <= 16,
        ensures
            r == e_from_limbs(cell_exprs(self.limbs@).reverse(), 16),
    {
        let n = self.limbs.len();
        let mut rev: Vec<Expression> = Vec::new();
        let mut i: usize = 0;
        while i < n
            invariant
                n == self.limbs@.len(),
                n <= 16,
                i <= n,
                rev@.len() == i,
                forall|k: int| 0 <= k < i ==> #[trigger] rev@[k] == e_cell(self.limbs@[n - 1 - k]),
            decreases n - i,
        {
            rev.push(self.limbs[n - 1 - i].expr());
            i = i + 1;
        }
        proof {
            assert(rev@ =~= cell_exprs(self.limbs@).reverse());
        }
        Expression::from_limbs(&rev, 16)
    }

    /// The witness: the 16-bit limbs of the sub index, lowest first.
    pub fn assign(&self, sub_index: u128) -> (r: Vec<Fe>)
        requires
            N_LIMB <= 8,
        ensures
            r@.len() == N_LIMB,
            forall|i: int| 0 <= i < N_LIMB ==> #[trigger] r@[i].val() == crate::bytes::digit(sub_index as nat, 16, i as nat),
    {
        let limbs = sub_index_limbs(sub_index, N_LIMB);
        let mut r: Vec<Fe> = Vec::new();
        let mut i: usize = 0;
        while i < N_LIMB
            invariant
                i <= N_LIMB,
                limbs@.len() == N_LIMB,
                r@.len() == i,
                forall|k: int| 0 <= k < N_LIMB ==> #[trigger] limbs@[k] as nat == crate::bytes::digit(sub_index as nat, 16, k as nat),
                forall|k: int| 0 <= k < i ==> #[trigger] r@[k].val() == crate::bytes::digit(sub_index as nat, 16, k as nat),
            decreases N_LIMB - i,
        {
            r.push(Fe::from_u64(limbs[i] as u64));
            i = i + 1;
        }
        r
    }
}

/// The depth of a sub index: the number of its nonzero 16-bit limbs, each
/// marked by a mask cell.
#[derive(Debug)]
pub struct SubIndexDepth<const N_LIMB: usize> {
    pub sub_index: Expression,
    pub limbs: Vec<Cell>,
    pub mask: Vec<Cell>,
    pub reverse_limbs: Vec<Cell>,
}

/// The two polynomials of limb `i` of a depth check (`k == 0` or `1`).
pub open spec fn depth_limb_poly(limbs: Seq<Cell>, mask: Seq<Cell>, reverse: Seq<Cell>, i: int, k: int)
    -> (&'static str, Expression) {
    if k == 0 {
        ("mask[i] * (limbs[i] * reverse_limbs[i] - 1) == 0",
            e_mul(e_cell(mask[i]), e_sub(e_mul(e_cell(limbs[i]), e_cell(reverse[i])), e_const(1))))
    } else {
        ("(1 - mask[i]) * limbs[i] == 0", e_mul(e_sub(e_const(1), e_cell(mask[i])), e_cell(limbs[i])))
    }
}

/// The polynomials of a depth check.
pub open spec fn depth_polys(n: nat, sub_index: Expression, limbs: Seq<Cell>, mask: Seq<Cell>, reverse: Seq<Cell>)
    -> Seq<(&'static str, Expression)> {
    seq![("sub_index == from_limbs(limbs)", e_sub(sub_index, e_from_limbs(cell_exprs(limbs), 16)))]
        + Seq::new(2 * n, |j: int| depth_limb_poly(limbs, mask, reverse, j / 2, j % 2))
}

/// The number of nonzero values.
pub open spec fn nonzero_count(vals: Seq<int>) -> nat
    decreases vals.len(),
{
    if vals.len() == 0 { 0 } else { nonzero_count(vals.drop_last()) + (if vals.last() != 0 { 1nat } else { 0nat }) }
}

impl<const N_LIMB: usize> SubIndexDepth<N_LIMB> {
    pub fn construct(cb: &mut ConstraintBuilder, sub_index: Expression) -> (r: Self)
        requires
            N_LIMB <= 16,
            old(cb).has_room(3 * N_LIMB as nat),
        ensures
            r.sub_index == sub_index,
            r.limbs@.len() == N_LIMB,
            r.mask@.len() == N_LIMB,
            r.reverse_limbs@.len() == N_LIMB,
            fresh_cells(r.limbs@, old(cb).next_column as nat),
            fresh_cells(r.mask@, (old(cb).next_column + N_LIMB) as nat),
            fresh_cells(r.reverse_limbs@, (old(cb).next_column + 2 * N_LIMB) as nat),
            final(cb).next_column == old(cb).next_column + 3 * N_LIMB,
            final(cb).lookups@.len() == old(cb).lookups@.len() + N_LIMB,
            final(cb).lookups@.take(old(cb).lookups@.len() as int) == old(cb).lookups@,
            u16_range_records(final(cb).lookups@.skip(old(cb).lookups@.len() as int), r.limbs@, old(cb).scope,
                old(cb).condition),
            final(cb).constraints@ == old(cb).constraints@ + Seq::new(N_LIMB as nat, |i: int|
                old(cb).spec_constraint("Constrain cell to be a bool", e_boolean(e_cell(r.mask@[i]))))
                + polys_at(depth_polys(N_LIMB as nat, sub_index, r.limbs@, r.mask@, r.reverse_limbs@),
                    old(cb).scope, old(cb).condition),
            final(cb).requirements == old(cb).requirements,
            final(cb).curr == old(cb).curr,
            final(cb).scope == old(cb).scope,
            final(cb).condition == old(cb).condition,
    {
        let limbs = cb.query_u16s(N_LIMB);
        let mask = cb.query_bools(N_LIMB);
        let reverse_limbs = cb.query_cells(N_LIMB);
        let ghost c0 = cb.constraints@;
        let ghost cb1 = *cb;
        let ghost polys = depth_polys(N_LIMB as nat, sub_index, limbs@, mask@, reverse_limbs@);
        let exprs = cell_exprs_of(limbs.as_slice());
        cb.require_equal("sub_index == from_limbs(limbs)", sub_index.copy(), Expression::from_limbs(&exprs, 16));
        proof {
            assert(cb.constraints@ =~= c0 + polys_at(polys.take(1), old(cb).scope, old(cb).condition));
        }
        let mut i: usize = 0;
        while i < N_LIMB
            invariant
                N_LIMB <= 16,
                limbs@.len() == N_LIMB,
                mask@.len() == N_LIMB,
                reverse_limbs@.len() == N_LIMB,
                i <= N_LIMB,
                polys == depth_polys(N_LIMB as nat, sub_index, limbs@, mask@, reverse_limbs@),
                cb.constraints@ == c0 + polys_at(polys.take(1 + 2 * i), old(cb).scope, old(cb).condition),
                cb.only_constraints_changed(cb1),
                cb1.scope == old(cb).scope,
                cb1.condition == old(cb).condition,
            decreases N_LIMB - i,
        {
            cb.require_zero(
                "mask[i] * (limbs[i] * reverse_limbs[i] - 1) == 0",
                Expression::mul(mask[i].expr(), Expression::sub(Expression::mul(limbs[i].expr(), reverse_limbs[i].expr()),
                    Expression::constant(1))),
            );
            cb.require_zero(
                "(1 - mask[i]) * limbs[i] == 0",
                Expression::mul(Expression::sub(Expression::constant(1), mask[i].expr()), limbs[i].expr()),
            );
            proof {
                let b = 1 + 2 * i as int;
                assert((2 * i as int) / 2 == i && (2 * i as int) % 2 == 0);
                assert((2 * i as int + 1) / 2 == i && (2 * i as int + 1) % 2 == 1);
                assert(polys.take(b + 2) =~= polys.take(b).push(polys[b]).push(polys[b + 1]));
                assert(cb.constraints@ =~= c0 + polys_at(polys.take(b + 2), old(cb).scope, old(cb).condition));
            }
            i = i + 1;
        }
        proof {
            assert(polys.take(1 + 2 * N_LIMB) =~= polys);
        }
        SubIndexDepth { sub_index, limbs, mask, reverse_limbs }
    }

    /// The sum of the mask: the number of nonzero limbs.
    pub fn expr(&self) -> (r: Expression)
        requires
            self.mask@.len() <= 16,
        ensures
            r == e_sum_mask(self.mask@),
    {
        let exprs = cell_exprs_of(self.mask.as_slice());
        Expression::sum(&exprs)
    }
}


/// A mask that marks the nonzero values sums to their number.
proof fn lemma_mask_counts_nonzero(ms: Seq<int>, ls: Seq<int>)
    requires
        ms.len() == ls.len(),
        forall|i: int| 0 <= i < ms.len() ==> #[trigger] ms[i] == (if ls[i] != 0 { 1int } else { 0int }),
    ensures
        weighted_sum(ms, 0) == nonzero_count(ls),
    decreases ms.len(),
{
    if ms.len() > 0 {
        let (mt, lt) = (ms.drop_last(), ls.drop_last());
        assert forall|i: int| 0 <= i < mt.len() implies #[trigger] mt[i] == (if lt[i] != 0 { 1int } else { 0int }) by {
            assert(mt[i] == ms[i] && lt[i] == ls[i]);
        }
        lemma_mask_counts_nonzero(mt, lt);
        assert(pow2(0) == 1) by { lemma2_to64(); }
        assert(ms.last() == ms[ms.len() - 1]);
    }
}

/// Whenever the polynomials of a depth check vanish, the limbs are 16-bit
/// values and the mask is boolean, the mask marks exactly the nonzero limbs
/// and the depth is the number of nonzero limbs.
pub proof fn lemma_sub_index_depth_sound(n: nat, sub_index: Expression, limbs: Seq<Cell>, mask: Seq<Cell>,
    reverse: Seq<Cell>, w: Witness, row: int)
    requires
        limbs.len() == n,
        mask.len() == n,
        reverse.len() == n,
        forall|k: int| 0 <= k < depth_polys(n, sub_index, limbs, mask, reverse).len() ==>
            #[trigger] eval(depth_polys(n, sub_index, limbs, mask, reverse)[k].1, w, row) % (modulus() as int) == 0,
        forall|i: int| 0 <= i < n ==> 0 <= #[trigger] eval(e_cell(limbs[i]), w, row) < 65536,
        forall|i: int| 0 <= i < n ==> #[trigger] eval(e_cell(mask[i]), w, row) == 0 || eval(e_cell(mask[i]), w, row) == 1,
    ensures
        forall|i: int| 0 <= i < n ==> #[trigger] eval(e_cell(mask[i]), w, row)
            == (if eval(e_cell(limbs[i]), w, row) != 0 { 1int } else { 0int }),
        eval(e_sum_mask(mask), w, row) == nonzero_count(evals(cell_exprs(limbs), w, row)),
{
    let polys = depth_polys(n, sub_index, limbs, mask, reverse);
    let p = modulus() as int;
    lemma_modulus_bounds();
    lemma2_to64();
    assert forall|i: int| 0 <= i < n implies #[trigger] eval(e_cell(mask[i]), w, row)
        == (if eval(e_cell(limbs[i]), w, row) != 0 { 1int } else { 0int }) by {
        reveal_with_fuel(eval, 4);
        let m = eval(e_cell(mask[i]), w, row);
        let l = eval(e_cell(limbs[i]), w, row);
        let rv = eval(e_cell(reverse[i]), w, row);
        let b = 1 + 2 * i;
        assert((2 * i) / 2 == i && (2 * i) % 2 == 0);
        assert((2 * i + 1) / 2 == i && (2 * i + 1) % 2 == 1);
        assert(polys[b] == depth_limb_poly(limbs, mask, reverse, i, 0));
        assert(polys[b + 1] == depth_limb_poly(limbs, mask, reverse, i, 1));
        assert(eval(polys[b].1, w, row) % p == 0);
        assert(eval(polys[b + 1].1, w, row) % p == 0);
        assert(eval(polys[b].1, w, row) == m * (l * rv - 1));
        assert(eval(polys[b + 1].1, w, row) == (1 - m) * l);
        if m == 0 {
            assert((1 - m) * l == l) by (nonlinear_arith) requires m == 0;
            lemma_small_int_mod_zero(l, p);
        } else {
            assert(m * (l * rv - 1) == l * rv - 1) by (nonlinear_arith) requires m == 1;
            if l == 0 {
                assert(l * rv - 1 == -1) by (nonlinear_arith) requires l == 0;
                lemma_mod_multiples_vanish(1, -1, p);
                lemma_small_mod((p - 1) as nat, p as nat);
            }
        }
    }
    let ms = evals(cell_exprs(mask), w, row);
    let ls = evals(cell_exprs(limbs), w, row);
    assert forall|i: int| 0 <= i < ms.len() implies #[trigger] ms[i] == (if ls[i] != 0 { 1int } else { 0int }) by {
        assert(ms[i] == eval(e_cell(mask[i]), w, row));
        assert(ls[i] == eval(e_cell(limbs[i]), w, row));
    }
    lemma_eval_from_limbs(cell_exprs(mask), 0, w, row);
    lemma_mask_counts_nonzero(ms, ls);
}

/// A member sub index below a header sub index, both given by their bytes
/// and read as 16-bit limbs.
#[derive(Debug)]
pub struct Membership<const N_LIMB: usize> {
    pub header_bytes: Vec<Cell>,
    pub header_limbs: Vec<Expression>,
    pub member_bytes: Vec<Cell>,
    pub member_limbs: Vec<Expression>,
    pub mask: Vec<Cell>,
    pub reverse_header_limbs: Vec<Cell>,
    pub reverse_header_member_diff: Cell,
}

/// `w` is the witness of the membership of `member_sub_index` under
/// `header_sub_index` over `n` limbs: the bytes of both, the mask of the
/// header's nonzero limbs with their inverses, and the inverse of the
/// difference of the two (zero where there is none).
pub open spec fn membership_witness(n: nat, header_sub_index: u128, member_sub_index: u128, w: MembershipWitness)
    -> bool {
    &&& crate::bytes::le_value(w.header_bytes@) == header_sub_index
    &&& crate::bytes::le_value(w.member_bytes@) == member_sub_index
    &&& w.mask@.len() == n
    &&& w.reverse_header_limbs@.len() == n
    &&& forall|i: int| 0 <= i < n ==> (#[trigger] w.mask@[i]).val()
        == (if crate::bytes::digit(header_sub_index as nat, 16, i as nat) != 0 { 1nat } else { 0nat })
    &&& forall|i: int| 0 <= i < n ==> {
        let l = crate::bytes::digit(header_sub_index as nat, 16, i as nat);
        &&& l == 0 ==> (#[trigger] w.reverse_header_limbs@[i]).val() == 0
        &&& l != 0 ==> (l * w.reverse_header_limbs@[i].val()) % modulus() == 1
    }
    &&& header_sub_index == member_sub_index ==> w.reverse_header_member_diff.val() == 0
    &&& header_sub_index != member_sub_index ==> ((member_sub_index - header_sub_index) * w.reverse_header_member_diff.val())
        % (modulus() as int) == 1
}

/// The witness of a membership check.
#[derive(Debug)]
pub struct MembershipWitness {
    pub header_bytes: [u8; 32],
    pub member_bytes: [u8; 32],
    pub mask: Vec<Fe>,
    pub reverse_header_limbs: Vec<Fe>,
    pub reverse_header_member_diff: Fe,
}

impl<const N_LIMB: usize> Membership<N_LIMB> {
    pub open spec fn wf(self) -> bool {
        &&& self.header_bytes@.len() == 32
        &&& self.member_bytes@.len() == 32
        &&& self.header_limbs@ == limb_exprs(self.header_bytes@, N_LIMB as nat)
        &&& self.member_limbs@ == limb_exprs(self.member_bytes@, N_LIMB as nat)
        &&& self.mask@.len() == N_LIMB
        &&& self.reverse_header_limbs@.len() == N_LIMB
    }

    /// The polynomials that `configure` requires to vanish.
    pub open spec fn spec_polys(self, header_sub_index: Expression, member_sub_index: Expression)
        -> Seq<(&'static str, Expression)> {
        membership_polys(false, N_LIMB as nat, header_sub_index, member_sub_index, self.header_limbs@,
            self.member_limbs@, self.mask@, self.reverse_header_limbs@, self.reverse_header_member_diff)
    }

    pub fn construct(cb: &mut ConstraintBuilder) -> (r: Self)
        requires
            1 <= N_LIMB <= 16,
            old(cb).has_room(65 + 2 * N_LIMB as nat),
        ensures
            r.wf(),
            fresh_cells(r.header_bytes@, old(cb).next_column as nat),
            fresh_cells(r.member_bytes@, (old(cb).next_column + 32) as nat),
            fresh_cells(r.mask@, (old(cb).next_column + 64) as nat),
            fresh_cells(r.reverse_header_limbs@, (old(cb).next_column + 64 + N_LIMB) as nat),
            r.reverse_header_member_diff == (Cell { column: (old(cb).next_column + 64 + 2 * N_LIMB) as usize, rotation: 0 }),
            final(cb).next_column == old(cb).next_column + 65 + 2 * N_LIMB,
            final(cb).lookups@.len() == old(cb).lookups@.len() + 64,
            final(cb).lookups@.take(old(cb).lookups@.len() as int) == old(cb).lookups@,
            byte_range_records(final(cb).lookups@.subrange(old(cb).lookups@.len() as int, old(cb).lookups@.len() as int + 32),
                r.header_bytes@, old(cb).scope, old(cb).condition),
            byte_range_records(final(cb).lookups@.skip(old(cb).lookups@.len() as int + 32), r.member_bytes@,
                old(cb).scope, old(cb).condition),
            final(cb).constraints@ == old(cb).constraints@ + Seq::new(N_LIMB as nat, |i: int|
                old(cb).spec_constraint("Constrain cell to be a bool", e_boolean(e_cell(r.mask@[i])))),
            final(cb).requirements == old(cb).requirements,
            final(cb).curr == old(cb).curr,
            final(cb).scope == old(cb).scope,
            final(cb).condition == old(cb).condition,
    {
        let ghost l0 = cb.lookups@;
        let header_bytes = cb.query_bytes(32);
        let ghost l1 = cb.lookups@;
        let member_bytes = cb.query_bytes(32);
        let header_limbs = get_limbs_from_bytes(header_bytes.as_slice(), N_LIMB);
        let member_limbs = get_limbs_from_bytes(member_bytes.as_slice(), N_LIMB);
        let mask = cb.query_bools(N_LIMB);
        let reverse_header_limbs = cb.query_cells(N_LIMB);
        let reverse_header_member_diff = cb.query_cell();
        proof {
            let k = l0.len() as int;
            assert(cb.lookups@.take(k + 32) =~= l1);
            assert(cb.lookups@.take(k) =~= l0) by {
                assert(cb.lookups@.take(k) =~= l1.take(k));
            }
            assert(cb.lookups@.subrange(k, k + 32) =~= l1.skip(k));
            assert(cb.lookups@.skip(k + 32) =~= cb.lookups@.skip(l1.len() as int));
        }
        Membership {
            header_bytes,
            header_limbs,
            member_bytes,
            member_limbs,
            mask,
            reverse_header_limbs,
            reverse_header_member_diff,
        }
    }

    pub fn configure(&self, cb: &mut ConstraintBuilder, header_sub_index: Expression, member_sub_index: Expression)
        requires
            self.wf(),
            N_LIMB <= 16,
        ensures
            final(cb).constraints@ == old(cb).constraints@ + polys_at(self.spec_polys(header_sub_index, member_sub_index),
                old(cb).scope, old(cb).condition),
            final(cb).only_constraints_changed(*old(cb)),
    {
        configure_membership(cb, false, header_sub_index, member_sub_index, &self.header_limbs, &self.member_limbs,
            &self.mask, &self.reverse_header_limbs, self.reverse_header_member_diff);
    }

    /// The witness: the bytes of both sub indexes, the mask of the header's
    /// nonzero limbs with their inverses, and the inverse of the difference
    /// of the two sub indexes (zero where there is none).
    pub fn assign(&self, header_sub_index: u128, member_sub_index: u128) -> (r: MembershipWitness)
        requires
            N_LIMB <= 8,
        ensures
            membership_witness(N_LIMB as nat, header_sub_index, member_sub_index, r),
            crate::bytes::le_value(r.header_bytes@) == header_sub_index,
            crate::bytes::le_value(r.member_bytes@) == member_sub_index,
            r.mask@.len() == N_LIMB,
            r.reverse_header_limbs@.len() == N_LIMB,
            forall|i: int| 0 <= i < N_LIMB ==> (#[trigger] r.mask@[i]).val()
                == (if crate::bytes::digit(header_sub_index as nat, 16, i as nat) != 0 { 1nat } else { 0nat }),
            forall|i: int| 0 <= i < N_LIMB ==> {
                let l = crate::bytes::digit(header_sub_index as nat, 16, i as nat);
                &&& l == 0 ==> (#[trigger] r.reverse_header_limbs@[i]).val() == 0
                &&& l != 0 ==> (l * r.reverse_header_limbs@[i].val()) % modulus() == 1
            },
            header_sub_index == member_sub_index ==> r.reverse_header_member_diff.val() == 0,
            header_sub_index != member_sub_index ==> ((member_sub_index - header_sub_index) * r.reverse_header_member_diff.val())
                % (modulus() as int) == 1,
    {
        let h = Fe::from_u128(header_sub_index);
        let m = Fe::from_u128(member_sub_index);
        let header_bytes = h.to_repr();
        let member_bytes = m.to_repr();
        let limbs = sub_index_limbs(header_sub_index, N_LIMB);
        let mut mask: Vec<Fe> = Vec::new();
        let mut reverse_header_limbs: Vec<Fe> = Vec::new();
        let mut i: usize = 0;
        while i < N_LIMB
            invariant
                i <= N_LIMB,
                limbs@.len() == N_LIMB,
                forall|k: int| 0 <= k < N_LIMB ==> #[trigger] limbs@[k] as nat == crate::bytes::digit(header_sub_index as nat, 16, k as nat),
                mask@.len() == i,
                reverse_header_limbs@.len() == i,
                forall|k: int| 0 <= k < i ==> (#[trigger] mask@[k]).val()
                    == (if crate::bytes::digit(header_sub_index as nat, 16, k as nat) != 0 { 1nat } else { 0nat }),
                forall|k: int| 0 <= k < i ==> {
                    let l = crate::bytes::digit(header_sub_index as nat, 16, k as nat);
                    &&& l == 0 ==> (#[trigger] reverse_header_limbs@[k]).val() == 0
                    &&& l != 0 ==> (l * reverse_header_limbs@[k].val()) % modulus() == 1
                },
            decreases N_LIMB - i,
        {
            let limb = limbs[i];
            mask.push(Fe::from_bool(limb != 0));
            reverse_header_limbs.push(fe_invert_or_zero(&Fe::from_u64(limb as u64)));
            i = i + 1;
        }
        let diff = crate::field::fe_sub(&m, &h);
        let reverse_header_member_diff = fe_invert_or_zero(&diff);
        proof {
            let p = modulus() as int;
            lemma_modulus_bounds();
            crate::field::lemma_u128_below_pow2_128(header_sub_index);
            crate::field::lemma_u128_below_pow2_128(member_sub_index);
            lemma_pow2_strictly_increases(128, 254);
            let d = member_sub_index - header_sub_index;
            assert(diff.val() == (member_sub_index + p - header_sub_index) % p);
            lemma_mod_multiples_vanish(1, d, p);
            assert(diff.val() == d % p);
            if header_sub_index != member_sub_index {
                if d > 0 {
                    lemma_small_mod(d as nat, p as nat);
                } else {
                    lemma_small_mod((d + p) as nat, p as nat);
                }
                assert(diff.val() != 0);
                lemma_mul_mod_noop_left(d, reverse_header_member_diff.val() as int, p);
            } else {
                assert(diff.val() == 0);
            }
        }
        MembershipWitness { header_bytes, member_bytes, mask, reverse_header_limbs, reverse_header_member_diff }
    }
}

} // verus!
