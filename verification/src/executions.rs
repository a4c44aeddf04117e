//! The execution gadgets: the constraints of each stage of the VM.

pub mod add_sub;
pub mod add_sub_sound;
pub mod and_or;
pub mod base;
pub mod bitwise;
pub mod borrow_field;
pub mod borrow_loc;
pub mod br_bool;
pub mod call;
pub mod cast;
pub mod common;
pub mod equality;
pub mod error;
pub mod ld;
pub mod ld_const;
pub mod ld_bool;
pub mod le_gt;
pub mod move_or_copy_loc;
pub mod native_poseidon_hash;
pub mod nop;
pub mod pack;
pub mod pop;
pub mod read_ref;
pub mod ret;
pub mod shl_shr;
pub mod start;
pub mod store_loc;
pub mod unpack;
pub mod vec_len;
pub mod vec_push_back;
pub mod vec_swap;
pub mod write_ref;

use vstd::prelude::*;
use vstd::arithmetic::power2::pow2;
use crate::builder::{ConstraintBuilder, byte_range_records, e_boolean, fresh_cells, u16_range_records};
use crate::expr::{Cell, Expression, Witness, cell_exprs, cell_exprs_of, e_add, e_cell, e_const, e_from_limbs, e_mul,
    e_sub, eval, evals, lemma_eval_from_limbs};
use crate::field::{Fe, fe_invert_or_zero, modulus};
use crate::sub_index::{DEPTH_POW_OF_ONE_LEVEL, ExtendedSubIndexWitness, byte_limb, configure_membership,
    e_parent_sub_index, e_sum_mask, get_limbs_from_bytes, lemma_membership_sound, limb_exprs, membership_polys,
    polys_at};

verus! {

/// Constrains a field sub index to lie below a header sub index: the header's
/// 16-bit limbs are those of the field where the mask is set and zero
/// elsewhere, and the two sub indexes differ.
#[derive(Debug)]
pub struct MembershipGadget<const N_LIMB: usize> {
    pub header_limbs: Vec<Cell>,
    pub field_limbs: Vec<Cell>,
    pub mask: Vec<Cell>,
    pub reverse_limbs: Vec<Cell>,
    pub reverse_header_field_diff: Cell,
}

impl<const N_LIMB: usize> MembershipGadget<N_LIMB> {
    /// The polynomials that `configure` requires to vanish.
    pub open spec fn spec_polys(self, header_sub_index: Expression, field_sub_index: Expression)
        -> Seq<(&'static str, Expression)> {
        membership_polys(true, N_LIMB as nat, header_sub_index, field_sub_index, cell_exprs(self.header_limbs@),
            cell_exprs(self.field_limbs@), self.mask@, self.reverse_limbs@, self.reverse_header_field_diff)
    }

    pub open spec fn wf(self) -> bool {
        &&& self.header_limbs@.len() == N_LIMB
        &&& self.field_limbs@.len() == N_LIMB
        &&& self.mask@.len() == N_LIMB
        &&& self.reverse_limbs@.len() == N_LIMB
    }

    pub fn construct(cb: &mut ConstraintBuilder) -> (r: Self)
        requires
            old(cb).has_room(4 * N_LIMB as nat + 1),
        ensures
            r.wf(),
            fresh_cells(r.header_limbs@, old(cb).next_column as nat),
            fresh_cells(r.field_limbs@, (old(cb).next_column + N_LIMB) as nat),
            fresh_cells(r.mask@, (old(cb).next_column + 2 * N_LIMB) as nat),
            fresh_cells(r.reverse_limbs@, (old(cb).next_column + 3 * N_LIMB) as nat),
            r.reverse_header_field_diff == (Cell { column: (old(cb).next_column + 4 * N_LIMB) as usize, rotation: 0 }),
            final(cb).next_column == old(cb).next_column + 4 * N_LIMB + 1,
            final(cb).lookups@.len() == old(cb).lookups@.len() + 2 * N_LIMB,
            final(cb).lookups@.take(old(cb).lookups@.len() as int) == old(cb).lookups@,
            u16_range_records(final(cb).lookups@.subrange(old(cb).lookups@.len() as int,
                old(cb).lookups@.len() + N_LIMB), r.header_limbs@, old(cb).scope, old(cb).condition),
            u16_range_records(final(cb).lookups@.skip(old(cb).lookups@.len() + N_LIMB), r.field_limbs@,
                old(cb).scope, old(cb).condition),
            final(cb).constraints@ == old(cb).constraints@ + Seq::new(N_LIMB as nat, |i: int|
                old(cb).spec_constraint("Constrain cell to be a bool", e_boolean(e_cell(r.mask@[i])))),
            final(cb).requirements == old(cb).requirements,
            final(cb).curr == old(cb).curr,
            final(cb).scope == old(cb).scope,
            final(cb).condition == old(cb).condition,
    {
        let ghost l0 = cb.lookups@;
        let header_limbs = cb.query_u16s(N_LIMB);
        let ghost l1 = cb.lookups@;
        let field_limbs = cb.query_u16s(N_LIMB);
        let mask = cb.query_bools(N_LIMB);
        let reverse_limbs = cb.query_cells(N_LIMB);
        let reverse_header_field_diff = cb.query_cell();
        proof {
            let k = l0.len() as int;
            assert(cb.lookups@.take(k + N_LIMB) =~= l1);
            assert(cb.lookups@.take(k) =~= l0) by {
                assert(cb.lookups@.take(k) =~= l1.take(k));
            }
            assert(cb.lookups@.subrange(k, k + N_LIMB) =~= l1.skip(k));
            assert(cb.lookups@.skip(k + N_LIMB) =~= cb.lookups@.skip(l1.len() as int));
        }
        MembershipGadget { header_limbs, field_limbs, mask, reverse_limbs, reverse_header_field_diff }
    }

    pub fn configure(&self, cb: &mut ConstraintBuilder, header_sub_index: Expression, field_sub_index: Expression)
        requires
            self.wf(),
            N_LIMB <= 16,
        ensures
            final(cb).constraints@ == old(cb).constraints@ + polys_at(self.spec_polys(header_sub_index, field_sub_index),
                old(cb).scope, old(cb).condition),
            final(cb).only_constraints_changed(*old(cb)),
    {
        let header_exprs = cell_exprs_of(self.header_limbs.as_slice());
        let field_exprs = cell_exprs_of(self.field_limbs.as_slice());
        configure_membership(cb, true, header_sub_index, field_sub_index, &header_exprs, &field_exprs, &self.mask,
            &self.reverse_limbs, self.reverse_header_field_diff);
    }
}

/// Whenever the membership polynomials vanish, the limbs are 16-bit values and
/// the mask is boolean, the header's limbs are the field's limbs where the
/// mask is set and zero elsewhere, set limbs are nonzero, and the field sub
/// index differs from the header sub index.
pub proof fn lemma_membership_gadget_sound<const N_LIMB: usize>(g: MembershipGadget<N_LIMB>, header_sub_index: Expression,
    field_sub_index: Expression, w: Witness, row: int)
    requires
        g.wf(),
        forall|k: int| 0 <= k < g.spec_polys(header_sub_index, field_sub_index).len() ==>
            #[trigger] eval(g.spec_polys(header_sub_index, field_sub_index)[k].1, w, row) % (modulus() as int) == 0,
        forall|i: int| 0 <= i < N_LIMB ==> 0 <= #[trigger] eval(e_cell(g.header_limbs@[i]), w, row) < 65536,
        forall|i: int| 0 <= i < N_LIMB ==> 0 <= #[trigger] eval(e_cell(g.field_limbs@[i]), w, row) < 65536,
        forall|i: int| 0 <= i < N_LIMB ==> #[trigger] eval(e_cell(g.mask@[i]), w, row) == 0
            || eval(e_cell(g.mask@[i]), w, row) == 1,
    ensures
        forall|i: int| 0 <= i < N_LIMB ==> #[trigger] eval(e_cell(g.header_limbs@[i]), w, row)
            == (if eval(e_cell(g.mask@[i]), w, row) == 1 { eval(e_cell(g.field_limbs@[i]), w, row) } else { 0 }),
        forall|i: int| 0 <= i < N_LIMB && eval(e_cell(g.mask@[i]), w, row) == 1 ==>
            #[trigger] eval(e_cell(g.header_limbs@[i]), w, row) != 0,
        (eval(field_sub_index, w, row) - eval(header_sub_index, w, row)) % (modulus() as int) != 0,
{
    let hl = cell_exprs(g.header_limbs@);
    let fl = cell_exprs(g.field_limbs@);
    assert forall|i: int| 0 <= i < N_LIMB implies 0 <= #[trigger] eval(hl[i], w, row) < 65536
        && 0 <= eval(fl[i], w, row) < 65536 by {
        assert(hl[i] == e_cell(g.header_limbs@[i]));
        assert(fl[i] == e_cell(g.field_limbs@[i]));
    }
    let polys = membership_polys(true, N_LIMB as nat, header_sub_index, field_sub_index, hl, fl, g.mask@,
        g.reverse_limbs@, g.reverse_header_field_diff);
    assert forall|k: int| 0 <= k < polys.len() implies #[trigger] eval(polys[k].1, w, row) % (modulus() as int) == 0 by {
        assert(g.spec_polys(header_sub_index, field_sub_index)[k] == polys[k]);
    }
    lemma_membership_sound(true, N_LIMB as nat, header_sub_index, field_sub_index, hl, fl, g.mask@, g.reverse_limbs@,
        g.reverse_header_field_diff, w, row);
    assert forall|i: int| 0 <= i < N_LIMB implies #[trigger] eval(e_cell(g.header_limbs@[i]), w, row)
        == (if eval(e_cell(g.mask@[i]), w, row) == 1 { eval(e_cell(g.field_limbs@[i]), w, row) } else { 0 }) by {
        assert(hl[i] == e_cell(g.header_limbs@[i]));
        assert(fl[i] == e_cell(g.field_limbs@[i]));
    }
    assert forall|i: int| 0 <= i < N_LIMB && eval(e_cell(g.mask@[i]), w, row) == 1 implies
        #[trigger] eval(e_cell(g.header_limbs@[i]), w, row) != 0 by {
        assert(hl[i] == e_cell(g.header_limbs@[i]));
    }
}


/// A sub index of depth at least one taken apart into its sixteen-bit limbs,
/// with the mask of its last level: unlike `sub_index::ExtendedSubIndex`,
/// the mask always marks exactly one limb, so the sub index cannot be zero.
#[derive(Debug)]
pub struct ExtendedSubIndex<const N_LIMB: usize> {
    pub sub_index: Expression,
    pub bytes: Vec<Cell>,
    pub limbs: Vec<Expression>,
    pub mask: Vec<Cell>,
    pub reverse_limb: Cell,
}

/// The polynomials that `construct` requires to vanish, with their names.
pub open spec fn leveled_sub_index_polys(n: nat, sub_index: Expression, limbs: Seq<Expression>, mask: Seq<Cell>,
    reverse_limb: Cell) -> Seq<(&'static str, Expression)> {
    seq![
        ("sub_index == from_limbs(limbs)", e_sub(sub_index, e_from_limbs(limbs, 16))),
        ("sum(mask[i]) == 1", e_sub(e_sum_mask(mask), e_const(1))),
    ] + Seq::new(n, |i: int| ("if mask[i] == 1, limbs[i] != 0",
        e_mul(e_cell(mask[i]), e_sub(e_mul(limbs[i], e_cell(reverse_limb)), e_const(1)))))
    + Seq::new((n - 1) as nat, |i: int| ("mask[i] * limbs[i+1] == 0", e_mul(e_cell(mask[i]), limbs[i + 1])))
}

/// `from_limbs(mask) * 2^16`: the weight of the level below the last one.
pub open spec fn e_leveled_depth_pow(mask: Seq<Cell>) -> Expression {
    e_mul(e_from_limbs(cell_exprs(mask), 16), e_const(DEPTH_POW_OF_ONE_LEVEL as u128))
}

impl<const N_LIMB: usize> ExtendedSubIndex<N_LIMB> {
    /// The cells of the sub index and the constraints that tie them to it.
    pub fn construct(cb: &mut ConstraintBuilder, sub_index: Expression) -> (r: Self)
        requires
            1 <= N_LIMB <= 16,
            old(cb).has_room(33 + N_LIMB as nat),
        ensures
            r.sub_index == sub_index,
            r.bytes@.len() == 32,
            fresh_cells(r.bytes@, old(cb).next_column as nat),
            r.limbs@ == limb_exprs(r.bytes@, N_LIMB as nat),
            r.mask@.len() == N_LIMB,
            fresh_cells(r.mask@, (old(cb).next_column + 32) as nat),
            r.reverse_limb == (Cell { column: (old(cb).next_column + 32 + N_LIMB) as usize, rotation: 0 }),
            final(cb).next_column == old(cb).next_column + 33 + N_LIMB,
            final(cb).lookups@.len() == old(cb).lookups@.len() + 32,
            final(cb).lookups@.take(old(cb).lookups@.len() as int) == old(cb).lookups@,
            byte_range_records(final(cb).lookups@.skip(old(cb).lookups@.len() as int), r.bytes@, old(cb).scope,
                old(cb).condition),
            final(cb).constraints@ == old(cb).constraints@ + Seq::new(N_LIMB as nat, |i: int|
                old(cb).spec_constraint("Constrain cell to be a bool", e_boolean(e_cell(r.mask@[i]))))
                + polys_at(leveled_sub_index_polys(N_LIMB as nat, sub_index, r.limbs@, r.mask@, r.reverse_limb),
                    old(cb).scope, old(cb).condition),
            final(cb).requirements == old(cb).requirements,
            final(cb).curr == old(cb).curr,
            final(cb).scope == old(cb).scope,
            final(cb).condition == old(cb).condition,
    {
        let bytes = cb.query_bytes(32);
        let limbs = get_limbs_from_bytes(bytes.as_slice(), N_LIMB);
        let mask = cb.query_bools(N_LIMB);
        let reverse_limb = cb.query_cell();
        let ghost mid = *cb;
        let ghost c0 = cb.constraints@;
        let ghost polys = leveled_sub_index_polys(N_LIMB as nat, sub_index, limbs@, mask@, reverse_limb);
        cb.require_equal("sub_index == from_limbs(limbs)", sub_index.copy(), Expression::from_limbs(&limbs, 16));
        let mask_exprs = cell_exprs_of(mask.as_slice());
        cb.require_equal("sum(mask[i]) == 1", Expression::sum(&mask_exprs), Expression::constant(1));
        proof {
            assert(cb.constraints@ =~= c0 + polys_at(polys.take(2), old(cb).scope, old(cb).condition));
        }
        let mut i: usize = 0;
        while i < N_LIMB
            invariant
                1 <= N_LIMB <= 16,
                limbs@.len() == N_LIMB,
                mask@.len() == N_LIMB,
                i <= N_LIMB,
                cb.only_constraints_changed(mid),
                mid.scope == old(cb).scope,
                mid.condition == old(cb).condition,
                polys == leveled_sub_index_polys(N_LIMB as nat, sub_index, limbs@, mask@, reverse_limb),
                cb.constraints@ == c0 + polys_at(polys.take(2 + i), old(cb).scope, old(cb).condition),
            decreases N_LIMB - i,
        {
            cb.require_zero(
                "if mask[i] == 1, limbs[i] != 0",
                Expression::mul(
                    mask[i].expr(),
                    Expression::sub(Expression::mul(limbs[i].copy(), reverse_limb.expr()), Expression::constant(1)),
                ),
            );
            proof {
                assert(polys[2 + i as int] == ("if mask[i] == 1, limbs[i] != 0", e_mul(e_cell(mask@[i as int]),
                    e_sub(e_mul(limbs@[i as int], e_cell(reverse_limb)), e_const(1)))));
                assert(polys.take(2 + i + 1) =~= polys.take(2 + i).push(polys[2 + i as int]));
                assert(cb.constraints@ =~= c0 + polys_at(polys.take(2 + i + 1), old(cb).scope, old(cb).condition));
            }
            i = i + 1;
        }
        let mut i: usize = 0;
        while i < N_LIMB - 1
            invariant
                1 <= N_LIMB <= 16,
                limbs@.len() == N_LIMB,
                mask@.len() == N_LIMB,
                i <= N_LIMB - 1,
                cb.only_constraints_changed(mid),
                mid.scope == old(cb).scope,
                mid.condition == old(cb).condition,
                polys == leveled_sub_index_polys(N_LIMB as nat, sub_index, limbs@, mask@, reverse_limb),
                cb.constraints@ == c0 + polys_at(polys.take(2 + N_LIMB + i), old(cb).scope, old(cb).condition),
            decreases N_LIMB - 1 - i,
        {
            cb.require_zero("mask[i] * limbs[i+1] == 0", Expression::mul(mask[i].expr(), limbs[i + 1].copy()));
            proof {
                let k = 2 + N_LIMB + i;
                assert(polys[k as int] == ("mask[i] * limbs[i+1] == 0", e_mul(e_cell(mask@[i as int]), limbs@[i + 1])));
                assert(polys.take(k + 1) =~= polys.take(k as int).push(polys[k as int]));
                assert(cb.constraints@ =~= c0 + polys_at(polys.take(k + 1), old(cb).scope, old(cb).condition));
            }
            i = i + 1;
        }
        proof {
            assert(polys.take(2 + N_LIMB + N_LIMB - 1) =~= polys);
        }
        ExtendedSubIndex { sub_index, bytes, limbs, mask, reverse_limb }
    }

    /// `from_limbs(mask) * 2^16`.
    pub fn get_depth_pow(&self) -> (r: Expression)
        requires
            self.mask@.len() <= 16,
        ensures
            r == e_leveled_depth_pow(self.mask@),
    {
        let mask_exprs = cell_exprs_of(self.mask.as_slice());
        Expression::mul(Expression::from_limbs(&mask_exprs, 16), Expression::constant(DEPTH_POW_OF_ONE_LEVEL as u128))
    }

    /// The sub index of the parent: the limbs with the marked one cleared.
    pub fn get_parent_sub_index(&self) -> (r: Expression)
        requires
            self.limbs@.len() == self.mask@.len(),
            self.mask@.len() <= 16,
        ensures
            r == e_parent_sub_index(self.limbs@, self.mask@),
    {
        let mut v: Vec<Expression> = Vec::new();
        let mut i: usize = 0;
        while i < self.limbs.len()
            invariant
                i <= self.limbs@.len(),
                self.limbs@.len() == self.mask@.len(),
                v@ == Seq::new(i as nat, |k: int| e_mul(self.limbs@[k], e_sub(e_const(1), e_cell(self.mask@[k])))),
            decreases self.limbs.len() - i,
        {
            v.push(Expression::mul(self.limbs[i].copy(), Expression::sub(Expression::constant(1), self.mask[i].expr())));
            proof {
                assert(v@ =~= Seq::new((i + 1) as nat, |k: int| e_mul(self.limbs@[k], e_sub(e_const(1), e_cell(self.mask@[k])))));
            }
            i = i + 1;
        }
        proof {
            assert(v@ =~= Seq::new(self.limbs@.len(), |k: int| e_mul(self.limbs@[k], e_sub(e_const(1), e_cell(self.mask@[k])))));
        }
        Expression::from_limbs(&v, 16)
    }

    /// The sub index with `other_sub_index` appended below its last level:
    /// `sub_index + other_sub_index * from_limbs(mask) * 2^16`.
    pub fn concat_sub_index(&self, other_sub_index: Expression) -> (r: Expression)
        requires
            self.mask@.len() <= 16,
        ensures
            r == e_add(self.sub_index, e_mul(other_sub_index, e_leveled_depth_pow(self.mask@))),
    {
        Expression::add(self.sub_index.copy(), Expression::mul(other_sub_index, self.get_depth_pow()))
    }

    /// The witness for `ref_sub_index` at depth `depth`: its bytes, the mask
    /// of limb `depth - 1` and the inverse of that limb (zero for a zero
    /// limb).
    pub fn assign(&self, ref_sub_index: u128, depth: usize) -> (r: ExtendedSubIndexWitness)
        requires
            1 <= N_LIMB <= 16,
            1 <= depth <= N_LIMB,
        ensures
            crate::bytes::le_value(r.bytes@) == ref_sub_index,
            r.mask@.len() == N_LIMB,
            forall|i: int| 0 <= i < N_LIMB ==> (#[trigger] r.mask@[i]).val() == (if i == depth - 1 { 1nat } else { 0nat }),
            byte_limb(r.bytes@, depth - 1) == 0 ==> r.reverse_limb.val() == 0,
            byte_limb(r.bytes@, depth - 1) != 0 ==> (byte_limb(r.bytes@, depth - 1) * r.reverse_limb.val()) % modulus() == 1,
    {
        let bytes = Fe::from_u128(ref_sub_index).to_repr();
        let mut mask: Vec<Fe> = Vec::new();
        let mut i: usize = 0;
        while i < N_LIMB
            invariant
                1 <= depth,
                i <= N_LIMB,
                mask@.len() == i,
                forall|k: int| 0 <= k < i ==> (#[trigger] mask@[k]).val() == (if k == depth - 1 { 1nat } else { 0nat }),
            decreases N_LIMB - i,
        {
            mask.push(Fe::from_bool(i == depth - 1));
            i = i + 1;
        }
        let limb: u64 = bytes[2 * depth - 1] as u64 * 256 + bytes[2 * depth - 2] as u64;
        let reverse_limb = fe_invert_or_zero(&Fe::from_u64(limb));
        ExtendedSubIndexWitness { bytes, mask, reverse_limb }
    }
}

/// Appending below the last level: when the mask marks the depth `d >= 1`
/// (limb `d - 1`), `concat_sub_index(x)` is `sub_index + x * 2^(16 d)`.
pub proof fn lemma_concat_sub_index<const N_LIMB: usize>(g: ExtendedSubIndex<N_LIMB>, x: Expression, d: nat, w: Witness,
    row: int)
    requires
        g.mask@.len() == N_LIMB,
        N_LIMB <= 16,
        1 <= d <= N_LIMB,
        forall|i: int| 0 <= i < N_LIMB ==> #[trigger] eval(e_cell(g.mask@[i]), w, row) == (if i == d - 1 { 1int } else { 0int }),
    ensures
        eval(e_leveled_depth_pow(g.mask@), w, row) == pow2(16 * d),
        eval(e_add(g.sub_index, e_mul(x, e_leveled_depth_pow(g.mask@))), w, row)
            == eval(g.sub_index, w, row) + eval(x, w, row) * pow2(16 * d),
{
    reveal_with_fuel(eval, 3);
    let ms = evals(cell_exprs(g.mask@), w, row);
    assert forall|i: int| 0 <= i < N_LIMB implies #[trigger] ms[i] == (if i == d - 1 { 1int } else { 0int }) by {
        assert(ms[i] == eval(e_cell(g.mask@[i]), w, row));
    }
    lemma_eval_from_limbs(cell_exprs(g.mask@), 16, w, row);
    crate::sub_index::lemma_indicator_weight(ms, d, N_LIMB as nat, 16);
    vstd::arithmetic::power2::lemma_pow2_adds(16 * (d - 1) as nat, 16);
    vstd::arithmetic::power2::lemma2_to64();
    assert(16 * (d - 1) as nat + 16 == 16 * d);
    let f = eval(e_from_limbs(cell_exprs(g.mask@), 16), w, row);
    assert(f == pow2(16 * (d - 1) as nat));
    assert(eval(e_leveled_depth_pow(g.mask@), w, row) == f * 65536);
    let dp = eval(e_leveled_depth_pow(g.mask@), w, row);
    assert(eval(e_mul(x, e_leveled_depth_pow(g.mask@)), w, row) == eval(x, w, row) * dp);
}

} // verus!
