use vstd::prelude::*;
use vstd::arithmetic::div_mod::*;
use crate::builder::ConstraintBuilder;
use crate::sub_index::polys_at;
use crate::expr::{Cell, Expression, Witness, eval, e_cell, e_const, e_mul, e_sub};
use crate::field::{Fe, fe_invert_or_zero, modulus};

verus! {

/// Returns `1` when `value == 0`, and returns `0` otherwise.
#[derive(Debug)]
pub struct IsZeroGadget {
    pub inverse: Cell,
    pub value: Expression,
    pub is_zero: Expression,
}

/// `1 - value * inverse`.
pub open spec fn e_is_zero(value: Expression, inverse: Cell) -> Expression {
    e_sub(e_const(1), e_mul(value, e_cell(inverse)))
}

/// The two checks that tie `inverse` to `value`: `value * is_zero` and
/// `inverse * is_zero`, with `is_zero = 1 - value * inverse`.
pub open spec fn is_zero_checks(value: Expression, inverse: Cell) -> Seq<(&'static str, Expression)> {
    seq![
        ("value ⋅ (1 - value ⋅ value_inv)", e_mul(value, e_is_zero(value, inverse))),
        ("value_inv ⋅ (1 - value ⋅ value_inv)", e_mul(e_cell(inverse), e_is_zero(value, inverse))),
    ]
}

impl IsZeroGadget {
    /// The two polynomials that tie `inverse` to `value`: `value * is_zero` and
    /// `inverse * is_zero`.
    pub open spec fn spec_constraints(self) -> Seq<(&'static str, Expression)> {
        seq![
            ("value ⋅ (1 - value ⋅ value_inv)", e_mul(self.value, self.is_zero)),
            ("value_inv ⋅ (1 - value ⋅ value_inv)", e_mul(e_cell(self.inverse), self.is_zero)),
        ]
    }

    pub fn construct(cb: &mut ConstraintBuilder, value: Expression) -> (r: IsZeroGadget)
        requires
            old(cb).has_room(1),
        ensures
            r.inverse == (Cell { column: old(cb).next_column, rotation: 0 }),
            r.value == value,
            r.is_zero == e_is_zero(value, r.inverse),
            final(cb).next_column == old(cb).next_column + 1,
            final(cb).constraints == old(cb).constraints,
            final(cb).lookups == old(cb).lookups,
            final(cb).requirements == old(cb).requirements,
            final(cb).curr == old(cb).curr,
            final(cb).scope == old(cb).scope,
            final(cb).condition == old(cb).condition,
    {
        let inverse = cb.query_cell();
        let is_zero = Expression::sub(Expression::constant(1), Expression::mul(value.copy(), inverse.expr()));
        IsZeroGadget { inverse, is_zero, value }
    }

    pub fn configure(&self) -> (r: Vec<(&'static str, Expression)>)
        ensures
            r@ == self.spec_constraints(),
    {
        let v = vec![
            ("value ⋅ (1 - value ⋅ value_inv)", Expression::mul(self.value.copy(), self.is_zero.copy())),
            ("value_inv ⋅ (1 - value ⋅ value_inv)", Expression::mul(self.inverse.expr(), self.is_zero.copy())),
        ];
        proof {
            assert(v@ =~= self.spec_constraints());
        }
        v
    }

    /// Requires both polynomials of the gadget at the current rows, under the
    /// current condition.
    pub fn constrain(&self, cb: &mut ConstraintBuilder)
        ensures
            final(cb).constraints@ == old(cb).constraints@ + polys_at(self.spec_constraints(), old(cb).scope,
                old(cb).condition),
            final(cb).only_constraints_changed(*old(cb)),
    {
        cb.require_zero("value ⋅ (1 - value ⋅ value_inv)", Expression::mul(self.value.copy(), self.is_zero.copy()));
        cb.require_zero("value_inv ⋅ (1 - value ⋅ value_inv)", Expression::mul(self.inverse.expr(), self.is_zero.copy()));
        proof {
            assert(cb.constraints@ =~= old(cb).constraints@ + polys_at(self.spec_constraints(), old(cb).scope,
                old(cb).condition));
        }
    }

    pub fn expr(&self) -> (r: Expression)
        ensures
            r == self.is_zero,
    {
        self.is_zero.copy()
    }

    /// The witness of the gadget for `value`: the inverse (zero for zero) and
    /// the result, `1` for zero and `0` otherwise.
    pub fn assign(&self, value: &Fe) -> (r: (Fe, Fe))
        ensures
            value.val() == 0 ==> r.0.val() == 0,
            value.val() != 0 ==> (value.val() * r.0.val()) % modulus() == 1,
            r.1.val() == (if value.val() == 0 { 1nat } else { 0nat }),
            zero_test(value.val(), r),
    {
        let inverse = fe_invert_or_zero(value);
        let zero = Fe::zero();
        let is_zero = !crate::field::fe_lt(&zero, value);
        (inverse, Fe::from_bool(is_zero))
    }
}

/// `w` is what `assign` gives for a value whose residue is `v`: the inverse
/// (zero for zero) and the result.
pub open spec fn zero_test(v: nat, w: (Fe, Fe)) -> bool {
    &&& v == 0 ==> w.0.val() == 0
    &&& v != 0 ==> (v * w.0.val()) % modulus() == 1
    &&& w.1.val() == (if v == 0 { 1nat } else { 0nat })
}

/// The witness that `assign` gives satisfies both polynomials of the gadget,
/// and the gadget's result is `1` exactly on zero.
pub proof fn lemma_is_zero_complete(g: IsZeroGadget, w: Witness, row: int)
    requires
        g.is_zero == e_is_zero(g.value, g.inverse),
        ({
            let v = eval(g.value, w, row);
            let i = w(g.inverse.column as int, row + g.inverse.rotation as int);
            &&& v % (modulus() as int) == 0 ==> i % (modulus() as int) == 0
            &&& v % (modulus() as int) != 0 ==> (v * i) % (modulus() as int) == 1
        }),
    ensures
        eval(e_mul(g.value, g.is_zero), w, row) % (modulus() as int) == 0,
        eval(e_mul(e_cell(g.inverse), g.is_zero), w, row) % (modulus() as int) == 0,
        eval(g.is_zero, w, row) % (modulus() as int) == (if eval(g.value, w, row) % (modulus() as int) == 0 { 1int } else { 0int }),
{
    reveal_with_fuel(eval, 4);
    let p = modulus() as int;
    let v = eval(g.value, w, row);
    let i = w(g.inverse.column as int, row + g.inverse.rotation as int);
    let z = 1 - v * i;
    assert(eval(g.is_zero, w, row) == z);
    lemma_mul_mod_noop_general(v, i, p);
    lemma_mul_mod_noop_general(v, z, p);
    lemma_mul_mod_noop_general(i, z, p);
    lemma_sub_mod_noop(1, v * i, p);
    if v % p == 0 {
        assert((v % p) * (i % p) == 0);
        assert((v % p) * (z % p) == 0);
        assert((v % p) * i == 0);
        assert((i % p) * z == 0);
        lemma_small_mod(1, p as nat);
        lemma_mod_self_0(p);
        assert(0int % p == 0);
    } else {
        assert(((1int % p) - 1) % p == 0) by {
            lemma_small_mod(1, p as nat);
            assert(0int % p == 0);
        }
        assert(z % p == 0);
        assert(v * (z % p) == 0 && i * (z % p) == 0) by (nonlinear_arith)
            requires z % p == 0;
        assert(0int % p == 0);
    }
}

/// Whenever both polynomials hold, a result of `1` means `value` is zero and a
/// result of `0` means it is not.
pub proof fn lemma_is_zero_sound(g: IsZeroGadget, w: Witness, row: int)
    requires
        g.is_zero == e_is_zero(g.value, g.inverse),
        eval(e_mul(g.value, g.is_zero), w, row) % (modulus() as int) == 0,
        eval(e_mul(e_cell(g.inverse), g.is_zero), w, row) % (modulus() as int) == 0,
    ensures
        eval(g.is_zero, w, row) % (modulus() as int) == 1 ==> eval(g.value, w, row) % (modulus() as int) == 0,
        eval(g.is_zero, w, row) % (modulus() as int) == 0 ==> eval(g.value, w, row) % (modulus() as int) != 0,
{
    reveal_with_fuel(eval, 4);
    let p = modulus() as int;
    let v = eval(g.value, w, row);
    let i = w(g.inverse.column as int, row + g.inverse.rotation as int);
    let z = 1 - v * i;
    assert(eval(g.is_zero, w, row) == z);
    lemma_mul_mod_noop_general(v, z, p);
    lemma_mul_mod_noop_general(v, i, p);
    if z % p == 1 {
        assert(v * (z % p) == v);
    }
    if z % p == 0 && v % p == 0 {
        assert((v % p) * i == 0);
        assert(0int % p == 0);
        lemma_sub_mod_noop(1, v * i, p);
        lemma_small_mod(1, p as nat);
        assert(((1int % p) - 0) % p == 1);
    }
}

/// Under both checks the result of a test is idempotent: `is_zero ⋅ is_zero`
/// equals `is_zero` in the field.
pub proof fn lemma_is_zero_idempotent(g: IsZeroGadget, w: Witness, row: int)
    requires
        g.is_zero == e_is_zero(g.value, g.inverse),
        eval(e_mul(g.value, g.is_zero), w, row) % (modulus() as int) == 0,
    ensures
        (eval(g.is_zero, w, row) * eval(g.is_zero, w, row)) % (modulus() as int)
            == eval(g.is_zero, w, row) % (modulus() as int),
{
    reveal_with_fuel(eval, 4);
    crate::field::lemma_modulus_bounds();
    let p = modulus() as int;
    let v = eval(g.value, w, row);
    let i = w(g.inverse.column as int, row + g.inverse.rotation as int);
    let z = eval(g.is_zero, w, row);
    assert(z == 1 - v * i);
    assert(z * z == z - (v * z) * i) by (nonlinear_arith) requires z == 1 - v * i;
    lemma_mul_mod_noop_left(v * z, i, p);
    assert(0int % p == 0);
    lemma_sub_mod_noop(z, (v * z) * i, p);
    lemma_mod_twice(z, p);
}

/// When the product of the results of two tests, each under both its
/// checks, is `1` in the field, each result is `1`: both tested values are
/// zero.
pub proof fn lemma_is_zero_product_one(a: IsZeroGadget, b: IsZeroGadget, w: Witness, row: int)
    requires
        a.is_zero == e_is_zero(a.value, a.inverse),
        b.is_zero == e_is_zero(b.value, b.inverse),
        eval(e_mul(a.value, a.is_zero), w, row) % (modulus() as int) == 0,
        eval(e_mul(b.value, b.is_zero), w, row) % (modulus() as int) == 0,
        (eval(a.is_zero, w, row) * eval(b.is_zero, w, row)) % (modulus() as int) == 1,
    ensures
        eval(a.is_zero, w, row) % (modulus() as int) == 1,
        eval(b.is_zero, w, row) % (modulus() as int) == 1,
{
    crate::field::lemma_modulus_bounds();
    let p = modulus() as int;
    let x = eval(a.is_zero, w, row);
    let y = eval(b.is_zero, w, row);
    lemma_is_zero_idempotent(a, w, row);
    lemma_is_zero_idempotent(b, w, row);
    // x = x (x y) = (x x) y = x y = 1
    lemma_mul_mod_noop_right(x, x * y, p);
    assert(x * (x * y) == (x * x) * y) by (nonlinear_arith);
    lemma_mul_mod_noop_left(x * x, y, p);
    lemma_mul_mod_noop_left(x, y, p);
    assert(x * 1 == x);
    // y = y (x y) = x (y y) = x y = 1
    lemma_mul_mod_noop_right(y, x * y, p);
    assert(y * (x * y) == x * (y * y)) by (nonlinear_arith);
    lemma_mul_mod_noop_right(x, y * y, p);
    lemma_mul_mod_noop_right(x, y, p);
    assert(y * 1 == y);
}

} // verus!
