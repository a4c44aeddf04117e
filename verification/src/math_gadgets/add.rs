use vstd::prelude::*;
use vstd::arithmetic::div_mod::*;
use crate::builder::{ConstraintBuilder, e_in_set};
use crate::expr::{Cell, Expression, Witness, e_add, e_cell, e_const, e_mul, e_not, e_sub, eval};
use crate::field::{Fe, lemma_modulus_bounds, modulus};
use crate::step::Integer;
use crate::u256::{U256, lemma_two_128, two_128, two_256};

verus! {

/// Constrains `out == lhs + rhs` (addition) or `out == lhs - rhs` (subtraction)
/// modulo `2^256` on 128-bit limbs, with a carry out of each limb.
#[derive(Debug)]
pub struct AddGadget {
    pub carry_lo: Cell,
    pub carry_hi: Cell,
}

/// `a_lo + b_lo - (o_lo + c_lo * 2^128)`.
pub open spec fn e_add_lo(a_lo: Expression, b_lo: Expression, o_lo: Expression, c_lo: Cell) -> Expression {
    e_sub(e_add(a_lo, b_lo), e_add(o_lo, e_mul(e_cell(c_lo), Expression::PowerOfTwo(128))))
}

/// `a_hi + b_hi + c_lo - (o_hi + c_hi * 2^128)`.
pub open spec fn e_add_hi(a_hi: Expression, b_hi: Expression, o_hi: Expression, c_lo: Cell, c_hi: Cell) -> Expression {
    e_sub(e_add(e_add(a_hi, b_hi), e_cell(c_lo)), e_add(o_hi, e_mul(e_cell(c_hi), Expression::PowerOfTwo(128))))
}

/// `{0, 1}` as constant expressions.
pub open spec fn bit_set() -> Seq<Expression> {
    seq![e_const(0), e_const(1)]
}

/// The carries that `assign` computes, on limbs already ordered so that
/// `a + b` should give `o`: `((a_lo + b_lo - o_lo) mod 2^256) >> 128`, then
/// `((a_hi + b_hi + carry_lo - o_hi) mod 2^256) >> 128`.
pub open spec fn add_carries(a_lo: int, a_hi: int, b_lo: int, b_hi: int, o_lo: int, o_hi: int) -> (int, int) {
    let c_lo = ((a_lo + b_lo - o_lo) % (two_256() as int)) / (two_128() as int);
    let c_hi = ((a_hi + b_hi + c_lo - o_hi) % (two_256() as int)) / (two_128() as int);
    (c_lo, c_hi)
}

impl AddGadget {
    pub fn construct(cb: &mut ConstraintBuilder) -> (r: AddGadget)
        requires
            old(cb).has_room(2),
        ensures
            r.carry_lo == (Cell { column: old(cb).next_column, rotation: 0 }),
            r.carry_hi == (Cell { column: (old(cb).next_column + 1) as usize, rotation: 0 }),
            final(cb).next_column == old(cb).next_column + 2,
            final(cb).constraints@ == old(cb).constraints@ + seq![
                old(cb).spec_constraint("carry_lo == 0 | 1", e_in_set(e_cell(r.carry_lo), bit_set())),
                old(cb).spec_constraint("carry_hi == 0 | 1", e_in_set(e_cell(r.carry_hi), bit_set())),
            ],
            final(cb).lookups == old(cb).lookups,
            final(cb).requirements == old(cb).requirements,
            final(cb).curr == old(cb).curr,
            final(cb).scope == old(cb).scope,
            final(cb).condition == old(cb).condition,
    {
        let carry_lo = cb.query_cell();
        let carry_hi = cb.query_cell();
        let bits_lo = vec![Expression::constant(0), Expression::constant(1)];
        proof {
            assert(bits_lo@ =~= bit_set());
        }
        cb.require_in_set("carry_lo == 0 | 1", carry_lo.expr(), bits_lo);
        let bits_hi = vec![Expression::constant(0), Expression::constant(1)];
        proof {
            assert(bits_hi@ =~= bit_set());
        }
        cb.require_in_set("carry_hi == 0 | 1", carry_hi.expr(), bits_hi);
        AddGadget { carry_lo, carry_hi }
    }

    /// Constrains `out = lhs + rhs` where `is_add` is `1`, and
    /// `out = lhs - rhs` (that is, `out + rhs = lhs`) where it is `0`.
    pub fn expr(&self, cb: &mut ConstraintBuilder, lhs: Integer, rhs: Integer, out: Integer, is_add: Expression)
        ensures
            final(cb).constraints@ == old(cb).constraints@ + seq![
                old(cb).spec_constraint_if(is_add, "lhs_lo + rhs_lo == out_lo + carry_lo * 2^128",
                    e_add_lo(lhs.lo, rhs.lo, out.lo, self.carry_lo)),
                old(cb).spec_constraint_if(is_add, "lhs_hi + rhs_hi + carry_lo == out_hi + carry_hi * 2^128",
                    e_add_hi(lhs.hi, rhs.hi, out.hi, self.carry_lo, self.carry_hi)),
                old(cb).spec_constraint_if(e_not(is_add), "out_lo + rhs_lo == lhs_lo + carry_lo * 2^128",
                    e_add_lo(out.lo, rhs.lo, lhs.lo, self.carry_lo)),
                old(cb).spec_constraint_if(e_not(is_add), "out_hi + rhs_hi + carry_lo == lhs_hi + carry_hi * 2^128",
                    e_add_hi(out.hi, rhs.hi, lhs.hi, self.carry_lo, self.carry_hi)),
            ],
            final(cb).only_constraints_changed(*old(cb)),
    {
        let two128 = Expression::pow_of_two(128);
        let prev = cb.condition_begin(is_add.copy());
        cb.require_equal(
            "lhs_lo + rhs_lo == out_lo + carry_lo * 2^128",
            Expression::add(lhs.lo(), rhs.lo()),
            Expression::add(out.lo(), Expression::mul(self.carry_lo.expr(), two128.copy())),
        );
        cb.require_equal(
            "lhs_hi + rhs_hi + carry_lo == out_hi + carry_hi * 2^128",
            Expression::add(Expression::add(lhs.hi(), rhs.hi()), self.carry_lo.expr()),
            Expression::add(out.hi(), Expression::mul(self.carry_hi.expr(), two128.copy())),
        );
        cb.condition_end(prev);
        let prev = cb.condition_begin(Expression::not(is_add));
        cb.require_equal(
            "out_lo + rhs_lo == lhs_lo + carry_lo * 2^128",
            Expression::add(out.lo(), rhs.lo()),
            Expression::add(lhs.lo(), Expression::mul(self.carry_lo.expr(), two128.copy())),
        );
        cb.require_equal(
            "out_hi + rhs_hi + carry_lo == lhs_hi + carry_hi * 2^128",
            Expression::add(Expression::add(out.hi(), rhs.hi()), self.carry_lo.expr()),
            Expression::add(lhs.hi(), Expression::mul(self.carry_hi.expr(), two128)),
        );
        cb.condition_end(prev);
    }

    /// Overflow if carry_hi == 1.
    pub fn overflow(&self) -> (r: Expression)
        ensures
            r == e_cell(self.carry_hi),
    {
        self.carry_hi.expr()
    }

    /// The carries of the witness. For subtraction the roles of `lhs` and `out`
    /// swap: the gadget checks `out + rhs == lhs`.
    pub fn assign(
        &self,
        lhs_lo: u128,
        lhs_hi: u128,
        rhs_lo: u128,
        rhs_hi: u128,
        out_lo: u128,
        out_hi: u128,
        is_add: bool,
    ) -> (r: (Fe, Fe))
        ensures
            is_add ==> (r.0.val() as int, r.1.val() as int) == add_carries(
                lhs_lo as int, lhs_hi as int, rhs_lo as int, rhs_hi as int, out_lo as int, out_hi as int),
            !is_add ==> (r.0.val() as int, r.1.val() as int) == add_carries(
                out_lo as int, out_hi as int, rhs_lo as int, rhs_hi as int, lhs_lo as int, lhs_hi as int),
    {
        let rhs_lo = U256::from_u128(rhs_lo);
        let rhs_hi = U256::from_u128(rhs_hi);
        let a_lo = if is_add { U256::from_u128(lhs_lo) } else { U256::from_u128(out_lo) };
        let a_hi = if is_add { U256::from_u128(lhs_hi) } else { U256::from_u128(out_hi) };
        let o_lo = if is_add { U256::from_u128(out_lo) } else { U256::from_u128(lhs_lo) };
        let o_hi = if is_add { U256::from_u128(out_hi) } else { U256::from_u128(lhs_hi) };
        let sum_lo = U256::wrapping_add(a_lo, rhs_lo);
        let sum_hi = U256::wrapping_add(a_hi, rhs_hi);
        let carry_lo = U256::wrapping_sub(sum_lo, o_lo).shr_128();
        let carry_hi = U256::wrapping_sub(U256::wrapping_add(sum_hi, carry_lo), o_hi).shr_128();
        proof {
            let k = two_128() as int;
            let kk = two_256() as int;
            assert(a_lo.val() + rhs_lo.val() < kk);
            lemma_small_mod((a_lo.val() + rhs_lo.val()) as nat, kk as nat);
            lemma_small_mod((a_hi.val() + rhs_hi.val()) as nat, kk as nat);
            assert(carry_lo.val() < k) by {
                assert(carry_lo.val() == carry_lo.lo);
            }
            lemma_small_mod((sum_hi.val() + carry_lo.val()) as nat, kk as nat);
        }
        (Fe::from_u128(carry_lo.lo), Fe::from_u128(carry_hi.lo))
    }
}

/// Whenever the two polynomials of one direction vanish, the six limbs lie
/// below `2^128` and the carries are bits, `o = (a + b) mod 2^256` and the high
/// carry is the overflow of the 256-bit sum.
pub proof fn lemma_add_sound(
    a_lo: Expression, a_hi: Expression, b_lo: Expression, b_hi: Expression,
    o_lo: Expression, o_hi: Expression, c_lo: Cell, c_hi: Cell, w: Witness, row: int,
)
    requires
        eval(e_add_lo(a_lo, b_lo, o_lo, c_lo), w, row) % (modulus() as int) == 0,
        eval(e_add_hi(a_hi, b_hi, o_hi, c_lo, c_hi), w, row) % (modulus() as int) == 0,
        0 <= eval(a_lo, w, row) < two_128(),
        0 <= eval(a_hi, w, row) < two_128(),
        0 <= eval(b_lo, w, row) < two_128(),
        0 <= eval(b_hi, w, row) < two_128(),
        0 <= eval(o_lo, w, row) < two_128(),
        0 <= eval(o_hi, w, row) < two_128(),
        eval(e_cell(c_lo), w, row) == 0 || eval(e_cell(c_lo), w, row) == 1,
        eval(e_cell(c_hi), w, row) == 0 || eval(e_cell(c_hi), w, row) == 1,
    ensures
        ({
            let k = two_128() as int;
            let a = eval(a_lo, w, row) + eval(a_hi, w, row) * k;
            let b = eval(b_lo, w, row) + eval(b_hi, w, row) * k;
            let o = eval(o_lo, w, row) + eval(o_hi, w, row) * k;
            &&& o == (a + b) % (two_256() as int)
            &&& eval(e_cell(c_hi), w, row) == (if a + b >= two_256() { 1int } else { 0int })
        }),
{
    reveal_with_fuel(eval, 6);
    lemma_two_128();
    lemma_modulus_bounds();
    let p = modulus() as int;
    let k = two_128() as int;
    let cl = eval(e_cell(c_lo), w, row);
    let ch = eval(e_cell(c_hi), w, row);
    let lo = eval(a_lo, w, row) + eval(b_lo, w, row) - (eval(o_lo, w, row) + cl * k);
    let hi = eval(a_hi, w, row) + eval(b_hi, w, row) + cl - (eval(o_hi, w, row) + ch * k);
    assert(eval(e_add_lo(a_lo, b_lo, o_lo, c_lo), w, row) == lo);
    assert(eval(e_add_hi(a_hi, b_hi, o_hi, c_lo, c_hi), w, row) == hi);
    lemma_small_int_mod_zero(lo, p);
    lemma_small_int_mod_zero(hi, p);
    let a = eval(a_lo, w, row) + eval(a_hi, w, row) * k;
    let b = eval(b_lo, w, row) + eval(b_hi, w, row) * k;
    let o = eval(o_lo, w, row) + eval(o_hi, w, row) * k;
    assert(a + b == o + ch * (k * k)) by (nonlinear_arith)
        requires
            lo == 0, hi == 0,
            lo == eval(a_lo, w, row) + eval(b_lo, w, row) - (eval(o_lo, w, row) + cl * k),
            hi == eval(a_hi, w, row) + eval(b_hi, w, row) + cl - (eval(o_hi, w, row) + ch * k),
            a == eval(a_lo, w, row) + eval(a_hi, w, row) * k,
            b == eval(b_lo, w, row) + eval(b_hi, w, row) * k,
            o == eval(o_lo, w, row) + eval(o_hi, w, row) * k;
    assert(0 <= o < k * k) by (nonlinear_arith)
        requires
            o == eval(o_lo, w, row) + eval(o_hi, w, row) * k,
            0 <= eval(o_lo, w, row) < k,
            0 <= eval(o_hi, w, row) < k;
    lemma_mod_multiples_vanish(ch, o, k * k);
    lemma_small_mod(o as nat, (k * k) as nat);
    vstd::arithmetic::mul::lemma_mul_is_commutative(ch, k * k);
}

/// An integer strictly between `-p` and `p` that is `0` modulo `p` is `0`.
pub proof fn lemma_small_int_mod_zero(x: int, p: int)
    requires
        p > 0,
        -p < x < p,
        x % p == 0,
    ensures
        x == 0,
{
    if x > 0 {
        lemma_small_mod(x as nat, p as nat);
    } else if x < 0 {
        lemma_mod_multiples_vanish(1, x, p);
        lemma_small_mod((x + p) as nat, p as nat);
    }
}

/// On limbs of an exact 256-bit sum `o = (a + b) mod 2^256`, the carries of
/// `assign` are bits that satisfy both equations of the gadget over the
/// integers.
pub proof fn lemma_add_complete(a: U256, b: U256, o: U256)
    requires
        o.val() == (a.val() + b.val()) % two_256(),
    ensures
        ({
            let (cl, ch) = add_carries(a.lo as int, a.hi as int, b.lo as int, b.hi as int, o.lo as int, o.hi as int);
            let k = two_128() as int;
            &&& cl == 0 || cl == 1
            &&& ch == 0 || ch == 1
            &&& a.lo + b.lo == o.lo + cl * k
            &&& a.hi + b.hi + cl == o.hi + ch * k
        }),
{
    let k = two_128() as int;
    let kk = two_256() as int;
    let s = (a.val() + b.val()) as int;
    let c = if s >= kk { 1int } else { 0int };
    assert(s < 2 * kk);
    if c == 1 {
        lemma_mod_multiples_vanish(-1, s, kk);
        lemma_small_mod((s - kk) as nat, kk as nat);
    } else {
        lemma_small_mod(s as nat, kk as nat);
    }
    assert(s == o.val() + c * kk);
    let d = a.lo + b.lo - o.lo;
    let cl0 = if a.lo + b.lo >= k { 1int } else { 0int };
    assert(a.lo + b.lo + (a.hi + b.hi) * k == o.lo + o.hi * k + c * (k * k));
    let m = o.hi + c * k - a.hi - b.hi;
    assert(d == k * m);
    assert(m == 0 || m == 1);
    assert(cl0 == m);
    assert(d == cl0 * k);
    lemma_small_mod(d as nat, kk as nat);
    lemma_div_multiples_vanish(cl0, k);
    vstd::arithmetic::mul::lemma_mul_is_commutative(cl0, k);
    let (cl, ch) = add_carries(a.lo as int, a.hi as int, b.lo as int, b.hi as int, o.lo as int, o.hi as int);
    assert(cl == cl0);
    let e = a.hi + b.hi + cl - o.hi;
    assert(e == c * k);
    lemma_small_mod(e as nat, kk as nat);
    lemma_div_multiples_vanish(c, k);
    vstd::arithmetic::mul::lemma_mul_is_commutative(c, k);
}

} // verus!
