use vstd::prelude::*;
use vstd::arithmetic::power2::*;
use vstd::arithmetic::div_mod::*;
use crate::builder::{ConstraintBuilder, byte_range_records, fresh_cells, e_boolean};
use crate::bytes::{le_value, lemma_le_value_small, lemma_le_value_bound, lemma_weighted_sum_of_bytes};
use crate::expr::{Cell, Expression, Witness, cell_exprs, e_add, e_cell, e_from_limbs, e_mul, e_sub, eval, evals,
    lemma_eval_from_limbs, weighted_sum};
use crate::field::{Fe, fe_add, fe_lt, fe_sub, lemma_modulus_bounds, lemma_u128_below_pow2_128, modulus};
use crate::math_gadgets::comparison::{ComparisonGadget, comparison_diff, digit_sum};
use crate::math_gadgets::is_zero::{e_is_zero, is_zero_checks, zero_test};
use crate::sub_index::polys_at;

verus! {

/// Returns `1` when `lhs < rhs`, and returns `0` otherwise.
/// lhs and rhs `< 256**N_BYTES`
/// `N_BYTES` is required to be `<= MAX_N_BYTES_INTEGER` to prevent overflow:
/// values are stored in a single field element and two of these are added
/// together.
/// The equation that is enforced is `lhs - rhs == diff - (lt * range)`.
/// Because all values are `<= 256**N_BYTES` and `lt` is boolean, `lt` can only
/// be `1` when `lhs < rhs`.
#[derive(Debug)]
pub struct LtGadget<const N_BYTES: usize> {
    /// `1` when `lhs < rhs`, `0` otherwise.
    pub lt: Cell,
    /// The byte values of `diff`: `lhs - rhs` if `lhs >= rhs`, `lhs - rhs + range`
    /// otherwise.
    pub diff: Vec<Cell>,
    /// The range of the inputs, `256**N_BYTES`.
    pub range: Fe,
}

/// Maximum number of bytes that an integer can fit in field without wrapping
/// around.
pub const MAX_N_BYTES_INTEGER: usize = 31;

/// `lhs - rhs - (from_bytes(diff) - lt * 2^(8 n))`.
pub open spec fn e_lt_poly(lhs: Expression, rhs: Expression, lt: Cell, diff: Seq<Cell>, n: nat) -> Expression {
    e_sub(
        e_sub(lhs, rhs),
        e_sub(e_from_limbs(cell_exprs(diff), 8), e_mul(e_cell(lt), Expression::PowerOfTwo((8 * n) as u32))),
    )
}

impl<const N_BYTES: usize> LtGadget<N_BYTES> {
    pub fn construct(cb: &mut ConstraintBuilder, lhs: Expression, rhs: Expression) -> (r: Self)
        requires
            N_BYTES <= MAX_N_BYTES_INTEGER,
            old(cb).has_room(N_BYTES as nat + 1),
        ensures
            r.lt == (Cell { column: old(cb).next_column, rotation: 0 }),
            r.diff@.len() == N_BYTES,
            fresh_cells(r.diff@, old(cb).next_column as nat + 1),
            final(cb).lookups@.len() == old(cb).lookups@.len() + N_BYTES,
            r.range.val() == pow2(8 * N_BYTES as nat),
            final(cb).next_column == old(cb).next_column + 1 + N_BYTES,
            final(cb).constraints@ == old(cb).constraints@ + seq![
                old(cb).spec_constraint("Constrain cell to be a bool", e_boolean(e_cell(r.lt))),
                old(cb).spec_constraint("lhs - rhs == diff - (lt ⋅ range)", e_lt_poly(lhs, rhs, r.lt, r.diff@, N_BYTES as nat)),
            ],
            final(cb).lookups@.take(old(cb).lookups@.len() as int) == old(cb).lookups@,
            byte_range_records(final(cb).lookups@.skip(old(cb).lookups@.len() as int), r.diff@, old(cb).scope, old(cb).condition),
            final(cb).requirements == old(cb).requirements,
            final(cb).curr == old(cb).curr,
            final(cb).scope == old(cb).scope,
            final(cb).condition == old(cb).condition,
    {
        let lt = cb.query_bool();
        let diff = cb.query_bytes(N_BYTES);
        let k: u32 = 8 * (N_BYTES as u32);
        let range = Fe::pow_of_two(k);
        let composed = Expression::from_bytes(diff.as_slice());
        let rhs_side = Expression::sub(composed, Expression::mul(lt.expr(), Expression::pow_of_two(k)));
        cb.require_equal("lhs - rhs == diff - (lt ⋅ range)", Expression::sub(lhs, rhs), rhs_side);
        proof {
            assert(cb.constraints@ =~= old(cb).constraints@ + seq![
                old(cb).spec_constraint("Constrain cell to be a bool", e_boolean(e_cell(lt))),
                old(cb).spec_constraint("lhs - rhs == diff - (lt ⋅ range)", e_lt_poly(lhs, rhs, lt, diff@, N_BYTES as nat)),
            ]);
        }
        LtGadget { lt, diff, range }
    }

    pub fn expr(&self) -> (r: Expression)
        ensures
            r == e_cell(self.lt),
    {
        self.lt.expr()
    }

    pub fn diff_bytes(&self) -> (r: Vec<Cell>)
        ensures
            r@ == self.diff@,
    {
        self.diff.clone()
    }

    /// The witness of the gadget: `lt` as `0` or `1`, and the little-endian
    /// encoding of `lhs - rhs + lt * range` in the field, whose first `N_BYTES`
    /// bytes go to the `diff` cells.
    /// `assign` on values that may be unknown: the witness when both are
    /// known, nothing otherwise.
    pub fn assign_value(&self, lhs: Option<Fe>, rhs: Option<Fe>) -> (r: Option<(Fe, Vec<u8>)>)
        requires
            self.range.val() == pow2(8 * N_BYTES as nat),
        ensures
            r is Some <==> (lhs is Some && rhs is Some),
            r matches Some(w) ==> {
                let l = lhs->0.val();
                let h = rhs->0.val();
                &&& w.0.val() == (if l < h { 1nat } else { 0nat })
                &&& w.1@.len() == 32
                &&& le_value(w.1@) == (l - h + w.0.val() * pow2(8 * N_BYTES as nat)) % (modulus() as int)
            },
    {
        match (lhs, rhs) {
            (Some(l), Some(h)) => Some(self.assign(&l, &h)),
            _ => None,
        }
    }

    pub fn assign(&self, lhs: &Fe, rhs: &Fe) -> (r: (Fe, Vec<u8>))
        requires
            self.range.val() == pow2(8 * N_BYTES as nat),
        ensures
            r.0.val() == (if lhs.val() < rhs.val() { 1nat } else { 0nat }),
            r.1@.len() == 32,
            le_value(r.1@) == (lhs.val() - rhs.val() + r.0.val() * pow2(8 * N_BYTES as nat)) % (modulus() as int),
    {
        let lt = fe_lt(lhs, rhs);
        let d = fe_sub(lhs, rhs);
        let diff = if lt { fe_add(&d, &self.range) } else { d };
        let bytes = diff.to_repr();
        let ltv = Fe::from_bool(lt);
        proof {
            crate::field::lemma_val_bound(*lhs);
            crate::field::lemma_val_bound(*rhs);
            let p = modulus() as int;
            let a = lhs.val() as int;
            let b = rhs.val() as int;
            let big_r = pow2(8 * N_BYTES as nat) as int;
            assert(d.val() == (a - b + p) % p);
            lemma_mod_sub_multiples_vanish(a - b + p, p);
            assert((a - b + p) % p == (a - b) % p) by {
                lemma_mod_multiples_vanish(1, a - b, p);
            }
            if lt {
                lemma_add_mod_noop(a - b, big_r, p);
                lemma_mod_twice(big_r, p);
                lemma_mod_twice(a - b, p);
                lemma_add_mod_noop_right(a - b, big_r, p);
                lemma_add_mod_noop(a - b, big_r, p);
                assert(diff.val() == (d.val() + big_r % p) % p) by {
                    lemma_add_mod_noop(d.val() as int, big_r, p);
                    lemma_mod_twice(big_r, p);
                }
                assert(diff.val() == (a - b + big_r) % p) by {
                    lemma_add_mod_noop(a - b, big_r, p);
                    lemma_mod_twice(a - b, p);
                }
                assert(ltv.val() * pow2(8 * N_BYTES as nat) == big_r);
            } else {
                assert(ltv.val() * pow2(8 * N_BYTES as nat) == 0);
                assert(diff.val() == (a - b) % p);
            }
        }
        let mut v: Vec<u8> = Vec::new();
        let mut i: usize = 0;
        while i < 32
            invariant
                i <= 32,
                v@ == bytes@.take(i as int),
            decreases 32 - i,
        {
            v.push(bytes[i]);
            proof {
                assert(bytes@.take(i as int + 1) =~= bytes@.take(i as int).push(bytes@[i as int]));
            }
            i = i + 1;
        }
        proof {
            assert(bytes@.take(32) =~= bytes@);
        }
        (ltv, v)
    }
}

/// For inputs below `256^n` (`n <= 31`), the diff that `assign` encodes is
/// exactly `lhs - rhs + lt * 256^n`: its first `n` bytes write it and the rest
/// are zero.
pub proof fn lemma_lt_assign_exact(lhs: nat, rhs: nat, lt: nat, n: nat, bytes: Seq<u8>)
    requires
        n <= MAX_N_BYTES_INTEGER,
        bytes.len() == 32,
        lhs < pow2(8 * n),
        rhs < pow2(8 * n),
        lt == (if lhs < rhs { 1nat } else { 0nat }),
        le_value(bytes) == (lhs - rhs + lt * pow2(8 * n)) % (modulus() as int),
    ensures
        le_value(bytes.take(n as int)) == lhs - rhs + lt * pow2(8 * n),
        le_value(bytes.skip(n as int)) == 0,
{
    let d = lhs - rhs + lt * pow2(8 * n);
    lemma_modulus_bounds();
    if 8 * n < 254 {
        lemma_pow2_strictly_increases(8 * n, 254);
    }
    assert(0 <= d < pow2(8 * n));
    lemma_small_mod(d as nat, modulus());
    lemma_le_value_small(bytes, n);
}

/// Whenever the gadget's polynomial vanishes, `lt` is boolean, the diff cells
/// hold bytes and both sides lie below `256^n` (`n <= 31`), `lt` is `1` exactly
/// when `lhs < rhs`.
pub proof fn lemma_lt_sound(lhs: Expression, rhs: Expression, lt: Cell, diff: Seq<Cell>, n: nat, w: Witness, row: int)
    requires
        n <= MAX_N_BYTES_INTEGER,
        diff.len() == n,
        eval(e_lt_poly(lhs, rhs, lt, diff, n), w, row) % (modulus() as int) == 0,
        eval(e_cell(lt), w, row) == 0 || eval(e_cell(lt), w, row) == 1,
        forall|i: int| 0 <= i < n ==> 0 <= #[trigger] eval(e_cell(diff[i]), w, row) < 256,
        0 <= eval(lhs, w, row) < pow2(8 * n),
        0 <= eval(rhs, w, row) < pow2(8 * n),
    ensures
        eval(e_cell(lt), w, row) == (if eval(lhs, w, row) < eval(rhs, w, row) { 1int } else { 0int }),
{
    let p = modulus() as int;
    let a = eval(lhs, w, row);
    let b = eval(rhs, w, row);
    let l = eval(e_cell(lt), w, row);
    let big_r = pow2(8 * n) as int;
    let ds = evals(cell_exprs(diff), w, row);
    lemma_eval_from_limbs(cell_exprs(diff), 8, w, row);
    let dv = weighted_sum(ds, 8);
    lemma_bytes_weighted_sum_bound(ds, n);
    reveal_with_fuel(eval, 8);
    assert(((8 * n) as u32) as nat == 8 * n);
    assert(eval(e_lt_poly(lhs, rhs, lt, diff, n), w, row) == a - b - (dv - l * big_r));
    let e = a - b - (dv - l * big_r);
    lemma_modulus_bounds();
    if 8 * n < 254 {
        lemma_pow2_strictly_increases(8 * n, 254);
    }
    lemma_pow2_adds(8 * n, 1);
    lemma2_to64();
    lemma_pow2_strictly_increases(8 * n + 1, 254);
    assert(-p < e < p);
    if e != 0 {
        if e > 0 {
            lemma_small_mod(e as nat, p as nat);
        } else {
            lemma_mod_multiples_vanish(1, e, p);
            lemma_small_mod((e + p) as nat, p as nat);
        }
    }
    assert(e == 0);
}

/// Values of cells that hold bytes give a weighted sum below `256^n`.
pub proof fn lemma_bytes_weighted_sum_bound(ds: Seq<int>, n: nat)
    requires
        ds.len() == n,
        forall|i: int| 0 <= i < n ==> 0 <= #[trigger] ds[i] < 256,
    ensures
        0 <= weighted_sum(ds, 8) < pow2(8 * n),
{
    let bs = Seq::new(n, |i: int| ds[i] as u8);
    assert(bs.map_values(|b: u8| b as int) =~= ds);
    lemma_weighted_sum_of_bytes(bs);
    lemma_le_value_bound(bs);
}

/// Returns `1` when `lhs < rhs`, and returns `0` otherwise.
/// lhs and rhs are both Integer, each given as two 128-bit halves.
#[derive(Debug)]
pub struct LtInteger {
    pub comparison_hi: ComparisonGadget<16>,
    pub lt_lo: LtGadget<16>,
}

/// The integer whose 128-bit halves are `lo` and `hi`.
pub open spec fn integer_of_halves(lo: nat, hi: nat) -> nat {
    hi * pow2(128) + lo
}

impl LtInteger {
    pub fn construct(
        cb: &mut ConstraintBuilder,
        lhs_lo: Expression,
        lhs_hi: Expression,
        rhs_lo: Expression,
        rhs_hi: Expression,
    ) -> (r: Self)
        requires
            old(cb).has_room(35),
        ensures
            r.comparison_hi.lt.range.val() == pow2(128),
            r.lt_lo.range.val() == pow2(128),
            r.comparison_hi.lt.diff@.len() == 16,
            r.lt_lo.diff@.len() == 16,
            r.comparison_hi.eq.value == e_from_limbs(cell_exprs(r.comparison_hi.lt.diff@), 0),
            r.comparison_hi.eq.is_zero == e_is_zero(r.comparison_hi.eq.value, r.comparison_hi.eq.inverse),
            r.comparison_hi.lt.lt == (Cell { column: old(cb).next_column, rotation: 0 }),
            r.lt_lo.lt == (Cell { column: (old(cb).next_column + 18) as usize, rotation: 0 }),
            final(cb).next_column == old(cb).next_column + 35,
            final(cb).lookups@.len() == old(cb).lookups@.len() + 32,
            final(cb).lookups@.take(old(cb).lookups@.len() as int) == old(cb).lookups@,
            final(cb).constraints@ == old(cb).constraints@ + seq![
                old(cb).spec_constraint("Constrain cell to be a bool", e_boolean(e_cell(r.comparison_hi.lt.lt))),
                old(cb).spec_constraint("lhs - rhs == diff - (lt ⋅ range)",
                    e_lt_poly(lhs_hi, rhs_hi, r.comparison_hi.lt.lt, r.comparison_hi.lt.diff@, 16)),
            ] + polys_at(is_zero_checks(r.comparison_hi.eq.value, r.comparison_hi.eq.inverse), old(cb).scope,
                old(cb).condition) + seq![
                old(cb).spec_constraint("Constrain cell to be a bool", e_boolean(e_cell(r.lt_lo.lt))),
                old(cb).spec_constraint("lhs - rhs == diff - (lt ⋅ range)",
                    e_lt_poly(lhs_lo, rhs_lo, r.lt_lo.lt, r.lt_lo.diff@, 16)),
            ],
            final(cb).requirements == old(cb).requirements,
            final(cb).curr == old(cb).curr,
            final(cb).scope == old(cb).scope,
            final(cb).condition == old(cb).condition,
    {
        let ghost cb0 = *cb;
        let comparison_hi = ComparisonGadget::<16>::construct(cb, lhs_hi, rhs_hi);
        let ghost cb1 = *cb;
        let lt_lo = LtGadget::<16>::construct(cb, lhs_lo, rhs_lo);
        proof {
            assert(cb1.spec_constraint("Constrain cell to be a bool", e_boolean(e_cell(lt_lo.lt)))
                == cb0.spec_constraint("Constrain cell to be a bool", e_boolean(e_cell(lt_lo.lt))));
            assert(cb.constraints@ =~= cb0.constraints@ + seq![
                cb0.spec_constraint("Constrain cell to be a bool", e_boolean(e_cell(comparison_hi.lt.lt))),
                cb0.spec_constraint("lhs - rhs == diff - (lt ⋅ range)",
                    e_lt_poly(lhs_hi, rhs_hi, comparison_hi.lt.lt, comparison_hi.lt.diff@, 16)),
            ] + polys_at(is_zero_checks(comparison_hi.eq.value, comparison_hi.eq.inverse), cb0.scope, cb0.condition)
            + seq![
                cb0.spec_constraint("Constrain cell to be a bool", e_boolean(e_cell(lt_lo.lt))),
                cb0.spec_constraint("lhs - rhs == diff - (lt ⋅ range)",
                    e_lt_poly(lhs_lo, rhs_lo, lt_lo.lt, lt_lo.diff@, 16)),
            ]);
            assert(cb.lookups@.take(cb0.lookups@.len() as int) =~= cb0.lookups@) by {
                assert(cb.lookups@.take(cb0.lookups@.len() as int)
                    =~= cb.lookups@.take(cb1.lookups@.len() as int).take(cb0.lookups@.len() as int));
            }
        }
        LtInteger { comparison_hi, lt_lo }
    }

    /// `hi_lt + hi_eq * lo_lt`.
    pub fn expr(&self) -> (r: Expression)
        ensures
            r == e_add(e_cell(self.comparison_hi.lt.lt), e_mul(self.comparison_hi.eq.is_zero, e_cell(self.lt_lo.lt))),
    {
        let (hi_lt, hi_eq) = self.comparison_hi.expr();
        Expression::add(hi_lt, Expression::mul(hi_eq, self.lt_lo.expr()))
    }

    /// The witness: `(hi_lt, hi_eq, lo_lt, hi_eq_inverse)` for the halves of
    /// the two integers; `hi_lt + hi_eq * lo_lt` is `1` exactly when
    /// `lhs < rhs`.
    pub fn assign(&self, lhs_lo: u128, lhs_hi: u128, rhs_lo: u128, rhs_hi: u128) -> (r: (Fe, Fe, Fe, Fe))
        requires
            self.comparison_hi.lt.range.val() == pow2(128),
            self.lt_lo.range.val() == pow2(128),
        ensures
            r.0.val() == (if lhs_hi < rhs_hi { 1nat } else { 0nat }),
            r.1.val() == (if lhs_hi == rhs_hi { 1nat } else { 0nat }),
            r.2.val() == (if lhs_lo < rhs_lo { 1nat } else { 0nat }),
            r.0.val() + r.1.val() * r.2.val() == (if integer_of_halves(lhs_lo as nat, lhs_hi as nat)
                < integer_of_halves(rhs_lo as nat, rhs_hi as nat) { 1int } else { 0int }),
            r.1.val() == 1 ==> r.3.val() == 0,
            r.1.val() == 0 ==> r.3.val() != 0,
            zero_test(digit_sum(comparison_diff(lhs_hi as nat, rhs_hi as nat, 16), 16), (r.3, r.1)),
    {
        proof {
            lemma_u128_below_pow2_128(lhs_hi);
            lemma_u128_below_pow2_128(rhs_hi);
            lemma_u128_below_pow2_128(lhs_lo);
            lemma_u128_below_pow2_128(rhs_lo);
        }
        let (hi_lt, hi_eq, hi_inverse) = self.comparison_hi.assign(&Fe::from_u128(lhs_hi), &Fe::from_u128(rhs_hi));
        let (lo_lt, _diff) = self.lt_lo.assign(&Fe::from_u128(lhs_lo), &Fe::from_u128(rhs_lo));
        proof {
            lemma_integer_of_halves_lt(lhs_lo as nat, lhs_hi as nat, rhs_lo as nat, rhs_hi as nat);
        }
        (hi_lt, hi_eq, lo_lt, hi_inverse)
    }
}

/// Integers compare as their high halves do, and as their low halves when the
/// high halves are equal.
pub proof fn lemma_integer_of_halves_lt(a_lo: nat, a_hi: nat, b_lo: nat, b_hi: nat)
    requires
        a_lo < pow2(128),
        b_lo < pow2(128),
    ensures
        (integer_of_halves(a_lo, a_hi) < integer_of_halves(b_lo, b_hi))
            == (a_hi < b_hi || (a_hi == b_hi && a_lo < b_lo)),
{
    let r = pow2(128);
    if a_hi < b_hi {
        assert(a_hi * r + r <= b_hi * r) by (nonlinear_arith) requires a_hi < b_hi;
    } else if a_hi > b_hi {
        assert(b_hi * r + r <= a_hi * r) by (nonlinear_arith) requires a_hi > b_hi;
    }
}


/// The witness of the gadget satisfies it: for inputs below `256^n` (`n <=
/// 31`), with `lt` set to `1` exactly when `lhs < rhs` and the diff cells
/// holding the bytes of `lhs - rhs + lt * 256^n`, both polynomials of the
/// gadget vanish.
pub proof fn lemma_lt_complete(lhs: Expression, rhs: Expression, lt: Cell, diff: Seq<Cell>, n: nat, w: Witness, row: int)
    requires
        n <= MAX_N_BYTES_INTEGER,
        diff.len() == n,
        0 <= eval(lhs, w, row) < pow2(8 * n),
        0 <= eval(rhs, w, row) < pow2(8 * n),
        eval(e_cell(lt), w, row) == (if eval(lhs, w, row) < eval(rhs, w, row) { 1int } else { 0int }),
        forall|i: int| 0 <= i < n ==> #[trigger] eval(e_cell(diff[i]), w, row) == crate::bytes::digit(
            (eval(lhs, w, row) - eval(rhs, w, row) + eval(e_cell(lt), w, row) * pow2(8 * n)) as nat, 8, i as nat),
    ensures
        eval(e_boolean(e_cell(lt)), w, row) == 0,
        eval(e_lt_poly(lhs, rhs, lt, diff, n), w, row) == 0,
{
    let a = eval(lhs, w, row);
    let b = eval(rhs, w, row);
    let l = eval(e_cell(lt), w, row);
    let d = a - b + l * pow2(8 * n);
    assert(0 <= d < pow2(8 * n));
    reveal_with_fuel(eval, 8);
    assert(eval(e_boolean(e_cell(lt)), w, row) == l * (1 - l));
    assert(l * (1 - l) == 0) by (nonlinear_arith) requires l == 0 || l == 1;
    let ds = evals(cell_exprs(diff), w, row);
    lemma_eval_from_limbs(cell_exprs(diff), 8, w, row);
    assert forall|i: int| 0 <= i < n implies #[trigger] ds[i] == crate::bytes::digit(d as nat, 8, i as nat) by {
        assert(ds[i] == eval(e_cell(diff[i]), w, row));
    }
    crate::u256::lemma_weighted_sum_digits(d as nat, 8, n);
    assert(ds =~= Seq::new(n, |i: int| crate::bytes::digit(d as nat, 8, i as nat) as int));
    vstd::arithmetic::div_mod::lemma_small_mod(d as nat, pow2(8 * n));
    assert(((8 * n) as u32) as nat == 8 * n);
}

} // verus!
