use vstd::prelude::*;
use vstd::arithmetic::power2::*;
use vstd::arithmetic::div_mod::*;
use crate::builder::{ConstraintBuilder, byte_range_records, fresh_cells};
use crate::bytes::{digit, le_value, lemma_digits_of_le_value, lemma_weighted_sum_of_bytes};
use crate::expr::{Cell, Expression, Witness, cell_exprs, e_cell, e_const, e_from_limbs, e_mul, e_sub, eval, evals,
    lemma_eval_from_limbs, weighted_sum};
use crate::field::{Fe, fe_invert_or_zero, lemma_modulus_bounds, modulus};
use crate::math_gadgets::is_zero::{IsZeroGadget, e_is_zero, is_zero_checks};
use crate::sub_index::polys_at;
use crate::math_gadgets::lt::{MAX_N_BYTES_INTEGER, lemma_bytes_weighted_sum_bound};

verus! {

/// Requires that the passed in value is within the specified range.
/// `N_BYTES` is required to be `<= MAX_N_BYTES_INTEGER`.
#[derive(Debug)]
pub struct RangeCheckGadget<const N_BYTES: usize> {
    pub parts: Vec<Cell>,
}

/// The first `n` bytes of the encoding of `value`, copied out.
pub fn first_bytes(value: &Fe, n: usize) -> (r: Vec<u8>)
    requires
        n <= 32,
    ensures
        r@.len() == n,
        forall|i: int| 0 <= i < n ==> r@[i] as nat == #[trigger] digit(value.val(), 8, i as nat),
{
    let bytes = value.to_repr();
    let mut r: Vec<u8> = Vec::new();
    let mut i: usize = 0;
    while i < n
        invariant
            i <= n,
            n <= 32,
            le_value(bytes@) == value.val(),
            r@.len() == i,
            forall|k: int| 0 <= k < i ==> r@[k] as nat == #[trigger] digit(value.val(), 8, k as nat),
        decreases n - i,
    {
        proof {
            lemma_digits_of_le_value(bytes@, value.val(), i as nat);
        }
        r.push(bytes[i]);
        i = i + 1;
    }
    r
}

impl<const N_BYTES: usize> RangeCheckGadget<N_BYTES> {
    pub fn construct(cb: &mut ConstraintBuilder, value: Expression) -> (r: Self)
        requires
            N_BYTES <= MAX_N_BYTES_INTEGER,
            old(cb).has_room(N_BYTES as nat),
        ensures
            r.parts@.len() == N_BYTES,
            fresh_cells(r.parts@, old(cb).next_column as nat),
            final(cb).lookups@.len() == old(cb).lookups@.len() + N_BYTES,
            final(cb).next_column == old(cb).next_column + N_BYTES,
            final(cb).constraints@ == old(cb).constraints@.push(
                old(cb).spec_constraint("Constrain bytes recomposited to value",
                    e_sub(value, e_from_limbs(cell_exprs(r.parts@), 8))),
            ),
            final(cb).lookups@.take(old(cb).lookups@.len() as int) == old(cb).lookups@,
            byte_range_records(final(cb).lookups@.skip(old(cb).lookups@.len() as int), r.parts@, old(cb).scope, old(cb).condition),
            final(cb).requirements == old(cb).requirements,
            final(cb).curr == old(cb).curr,
            final(cb).scope == old(cb).scope,
            final(cb).condition == old(cb).condition,
    {
        let parts = cb.query_bytes(N_BYTES);
        let composed = Expression::from_bytes(parts.as_slice());
        cb.require_equal("Constrain bytes recomposited to value", value, composed);
        RangeCheckGadget { parts }
    }

    /// The witness: the first `N_BYTES` bytes of the encoding of `value`.
    pub fn assign(&self, value: &Fe) -> (r: Vec<u8>)
        requires
            N_BYTES <= MAX_N_BYTES_INTEGER,
        ensures
            r@.len() == N_BYTES,
            forall|i: int| 0 <= i < N_BYTES ==> r@[i] as nat == #[trigger] digit(value.val(), 8, i as nat),
    {
        first_bytes(value, N_BYTES)
    }
}

/// The composed bytes of a value below `256^n` give the value back, so the
/// witness of `assign` satisfies the gadget exactly on the values in range.
pub proof fn lemma_range_check_complete(value: nat, bytes: Seq<u8>)
    requires
        bytes.len() <= MAX_N_BYTES_INTEGER,
        value < pow2(8 * bytes.len()),
        forall|i: int| 0 <= i < bytes.len() ==> bytes[i] as nat == #[trigger] digit(value, 8, i as nat),
    ensures
        weighted_sum(bytes.map_values(|b: u8| b as int), 8) == value,
{
    lemma_weighted_sum_of_bytes(bytes);
    crate::bytes::lemma_le_value_of_digits(bytes, value);
    lemma_small_mod(value, pow2(8 * bytes.len()));
}

/// Whenever the gadget's polynomial vanishes and its cells hold bytes, the
/// checked value (taken in `[0, modulus)`) lies below `256^n`.
pub proof fn lemma_range_check_sound(value: Expression, parts: Seq<Cell>, w: Witness, row: int)
    requires
        parts.len() <= MAX_N_BYTES_INTEGER,
        eval(e_sub(value, e_from_limbs(cell_exprs(parts), 8)), w, row) % (modulus() as int) == 0,
        forall|i: int| 0 <= i < parts.len() ==> 0 <= #[trigger] eval(e_cell(parts[i]), w, row) < 256,
        0 <= eval(value, w, row) < modulus(),
    ensures
        eval(value, w, row) < pow2(8 * parts.len()),
{
    let n = parts.len();
    let p = modulus() as int;
    lemma_eval_from_limbs(cell_exprs(parts), 8, w, row);
    let ds = evals(cell_exprs(parts), w, row);
    assert forall|i: int| 0 <= i < n implies 0 <= #[trigger] ds[i] < 256 by {
        assert(ds[i] == eval(e_cell(parts[i]), w, row));
    }
    lemma_bytes_weighted_sum_bound(ds, n);
    let v = eval(value, w, row);
    let d = weighted_sum(ds, 8);
    reveal_with_fuel(eval, 3);
    assert(eval(e_sub(value, e_from_limbs(cell_exprs(parts), 8)), w, row) == v - d);
    lemma_modulus_bounds();
    if 8 * n < 254 {
        lemma_pow2_strictly_increases(8 * n, 254);
    }
    if v - d > 0 {
        lemma_small_mod((v - d) as nat, p as nat);
    } else if v - d < 0 {
        lemma_mod_multiples_vanish(1, v - d, p);
        lemma_small_mod((v - d + p) as nat, p as nat);
    }
}

/// Check if the input value is in the range of U8,U16,U32,U64 or U128
#[derive(Debug)]
pub struct IntegerRangeCheck<const N_BYTES: usize> {
    pub bytes: Vec<Cell>,
    pub is_zero: IsZeroGadget,
}

impl<const N_BYTES: usize> IntegerRangeCheck<N_BYTES> {
    pub fn construct(cb: &mut ConstraintBuilder, value: Expression) -> (r: Self)
        requires
            N_BYTES <= 16,
            old(cb).has_room(17),
        ensures
            r.bytes@.len() == 16,
            fresh_cells(r.bytes@, old(cb).next_column as nat),
            final(cb).lookups@.len() == old(cb).lookups@.len() + 16,
            r.is_zero.value == e_sub(value, e_from_limbs(cell_exprs(r.bytes@.take(N_BYTES as int)), 8)),
            r.is_zero.inverse == (Cell { column: (old(cb).next_column + 16) as usize, rotation: 0 }),
            r.is_zero.is_zero == e_is_zero(r.is_zero.value, r.is_zero.inverse),
            final(cb).next_column == old(cb).next_column + 17,
            final(cb).constraints@ == old(cb).constraints@.push(
                old(cb).spec_constraint("the input value is well assigned",
                    e_sub(value, e_from_limbs(cell_exprs(r.bytes@), 8))),
            ) + polys_at(is_zero_checks(r.is_zero.value, r.is_zero.inverse), old(cb).scope, old(cb).condition),
            final(cb).lookups@.take(old(cb).lookups@.len() as int) == old(cb).lookups@,
            byte_range_records(final(cb).lookups@.skip(old(cb).lookups@.len() as int), r.bytes@, old(cb).scope, old(cb).condition),
            final(cb).requirements == old(cb).requirements,
            final(cb).curr == old(cb).curr,
            final(cb).scope == old(cb).scope,
            final(cb).condition == old(cb).condition,
    {
        let bytes = cb.query_bytes(16);
        let composed = Expression::from_bytes(bytes.as_slice());
        cb.require_equal("the input value is well assigned", value.copy(), composed);
        let low = slice_prefix(&bytes, N_BYTES);
        let expected_value = Expression::from_bytes(low.as_slice());
        let is_zero = IsZeroGadget::construct(cb, Expression::sub(value, expected_value));
        is_zero.constrain(cb);
        IntegerRangeCheck { bytes, is_zero }
    }

    pub fn expr(&self) -> (r: Expression)
        ensures
            r == self.is_zero.is_zero,
    {
        self.is_zero.expr()
    }

    /// The witness: the first sixteen bytes of the encoding of `value`.
    pub fn assign(&self, value: &Fe) -> (r: Vec<u8>)
        ensures
            r@.len() == 16,
            forall|i: int| 0 <= i < 16 ==> r@[i] as nat == #[trigger] digit(value.val(), 8, i as nat),
    {
        first_bytes(value, 16)
    }
}

/// The first `n` cells of `v`.
pub fn slice_prefix(v: &Vec<Cell>, n: usize) -> (r: Vec<Cell>)
    requires
        n <= v@.len(),
    ensures
        r@ == v@.take(n as int),
{
    let mut r: Vec<Cell> = Vec::new();
    let mut i: usize = 0;
    while i < n
        invariant
            i <= n,
            n <= v@.len(),
            r@ == v@.take(i as int),
        decreases n - i,
    {
        r.push(v[i]);
        proof {
            assert(v@.take(i as int + 1) =~= v@.take(i as int).push(v@[i as int]));
        }
        i = i + 1;
    }
    r
}

/// The bytes of a 128-bit limb, shared by the range checks of the widths.
#[derive(Debug)]
pub struct LimbRangeCheck {
    pub bytes: Vec<Cell>,
}

/// The value of byte cells, little-endian.
pub open spec fn e_bytes(cells: Seq<Cell>) -> Expression {
    e_from_limbs(cell_exprs(cells), 8)
}

/// `1` when the limb, equal to its sixteen bytes, fits in its first `n`.
pub open spec fn e_in_range(value: Expression, bytes: Seq<Cell>, n: nat, inverse: Cell) -> Expression {
    e_is_zero(e_sub(value, e_bytes(bytes.take(n as int))), inverse)
}

impl LimbRangeCheck {
    pub fn construct(cb: &mut ConstraintBuilder) -> (r: LimbRangeCheck)
        requires
            old(cb).has_room(16),
        ensures
            r.bytes@.len() == 16,
            fresh_cells(r.bytes@, old(cb).next_column as nat),
            final(cb).next_column == old(cb).next_column + 16,
            final(cb).lookups@.len() == old(cb).lookups@.len() + 16,
            final(cb).lookups@.take(old(cb).lookups@.len() as int) == old(cb).lookups@,
            byte_range_records(final(cb).lookups@.skip(old(cb).lookups@.len() as int), r.bytes@, old(cb).scope,
                old(cb).condition),
            final(cb).constraints == old(cb).constraints,
            final(cb).requirements == old(cb).requirements,
            final(cb).curr == old(cb).curr,
            final(cb).scope == old(cb).scope,
            final(cb).condition == old(cb).condition,
    {
        LimbRangeCheck { bytes: cb.query_bytes(16) }
    }

    /// Requires `value` to be made of the sixteen bytes, and returns `1` when
    /// it fits in the first `n` of them.
    pub fn in_range(&self, cb: &mut ConstraintBuilder, value: Expression, n: usize) -> (r: Expression)
        requires
            self.bytes@.len() == 16,
            n <= 16,
            old(cb).has_room(1),
        ensures
            r == e_in_range(value, self.bytes@, n as nat, Cell { column: old(cb).next_column, rotation: 0 }),
            final(cb).next_column == old(cb).next_column + 1,
            final(cb).constraints@ == old(cb).constraints@.push(
                old(cb).spec_constraint("the input value is well assigned", e_sub(value, e_bytes(self.bytes@))))
                + polys_at(is_zero_checks(e_sub(value, e_bytes(self.bytes@.take(n as int))),
                    Cell { column: old(cb).next_column, rotation: 0 }), old(cb).scope, old(cb).condition),
            final(cb).lookups == old(cb).lookups,
            final(cb).requirements == old(cb).requirements,
            final(cb).curr == old(cb).curr,
            final(cb).scope == old(cb).scope,
            final(cb).condition == old(cb).condition,
    {
        cb.require_equal("the input value is well assigned", value.copy(), Expression::from_bytes(self.bytes.as_slice()));
        let low = slice_prefix(&self.bytes, n);
        let is_zero = IsZeroGadget::construct(cb, Expression::sub(value, Expression::from_bytes(low.as_slice())));
        is_zero.constrain(cb);
        is_zero.expr()
    }
}

/// What lies above the first `n` bytes of `value`: `value - value mod 256^n`.
pub open spec fn range_diff(value: nat, n: nat) -> nat {
    (value - value % pow2(8 * n)) as nat
}

/// `w` is the inverse of `d` in the field, zero for zero.
pub open spec fn inverse_of(d: nat, w: Fe) -> bool {
    &&& d == 0 ==> w.val() == 0
    &&& d != 0 ==> (d * w.val()) % modulus() == 1
}

/// The inverse of `range_diff(value, n)`, the witness of the test that a
/// limb fits in `n` bytes.
pub fn range_inverse(value: u128, n: usize) -> (r: Fe)
    requires
        n == 1 || n == 2 || n == 4 || n == 8,
    ensures
        inverse_of(range_diff(value as nat, n as nat), r),
{
    proof {
        lemma2_to64();
    }
    let m: u128 = if n == 1 { 0x100 } else if n == 2 { 0x1_0000 } else if n == 4 { 0x1_0000_0000 }
        else { 0x1_0000_0000_0000_0000 };
    assert(m == pow2(8 * n as nat));
    let d = value - value % m;
    let f = Fe::from_u128(d);
    fe_invert_or_zero(&f)
}

/// A weighted sum splits at `n`: the first `n` values, then the rest one
/// weight `2^(bits n)` up.
proof fn lemma_weighted_sum_split(s: Seq<int>, n: nat, bits: nat)
    requires
        n <= s.len(),
    ensures
        weighted_sum(s, bits) == weighted_sum(s.take(n as int), bits)
            + pow2(bits * n) * weighted_sum(s.skip(n as int), bits),
    decreases s.len(),
{
    if n == s.len() {
        assert(s.take(n as int) =~= s);
        assert(s.skip(n as int).len() == 0);
    } else {
        let m = s.len();
        let dl = s.drop_last();
        lemma_weighted_sum_split(dl, n, bits);
        assert(dl.take(n as int) =~= s.take(n as int));
        let t = s.skip(n as int);
        assert(t.drop_last() =~= dl.skip(n as int));
        assert(t.last() == s.last());
        assert(t.len() == m - n);
        assert(bits * n + bits * (m - n - 1) as nat == bits * (m - 1) as nat) by (nonlinear_arith)
            requires n < m;
        lemma_pow2_adds(bits * n, bits * (m - n - 1) as nat);
        let a = weighted_sum(dl.skip(n as int), bits);
        let pn = pow2(bits * n) as int;
        let pr = pow2(bits * (m - n - 1) as nat) as int;
        assert(pn * (a + s.last() * pr) == pn * a + s.last() * (pn * pr)) by (nonlinear_arith);
    }
}

/// The range test of `in_range` decides the range: when the limb is made of
/// its sixteen byte cells (modulo the field order) and both checks of the
/// test hold, a result of `1` means the bytes' value is below `256^n` and a
/// result of `0` means it is not.
pub proof fn lemma_in_range_sound(value: Expression, bytes: Seq<Cell>, n: nat, inverse: Cell, w: Witness, row: int)
    requires
        bytes.len() == 16,
        n <= 16,
        forall|i: int| 0 <= i < 16 ==> 0 <= #[trigger] eval(e_cell(bytes[i]), w, row) < 256,
        eval(e_sub(value, e_bytes(bytes)), w, row) % (modulus() as int) == 0,
        forall|k: int| 0 <= k < 2 ==> #[trigger] eval(is_zero_checks(e_sub(value, e_bytes(bytes.take(n as int))),
            inverse)[k].1, w, row) % (modulus() as int) == 0,
    ensures
        eval(e_in_range(value, bytes, n, inverse), w, row) % (modulus() as int) == 1
            ==> eval(e_bytes(bytes), w, row) < pow2(8 * n),
        eval(e_in_range(value, bytes, n, inverse), w, row) % (modulus() as int) == 0
            ==> eval(e_bytes(bytes), w, row) >= pow2(8 * n),
        eval(e_bytes(bytes), w, row) < pow2(8 * n)
            ==> eval(e_in_range(value, bytes, n, inverse), w, row) % (modulus() as int) == 1,
        0 <= eval(e_bytes(bytes), w, row) < pow2(128),
{
    let p = modulus() as int;
    lemma_modulus_bounds();
    let d = e_sub(value, e_bytes(bytes.take(n as int)));
    let g = IsZeroGadget { inverse, value: d, is_zero: e_is_zero(d, inverse) };
    let checks = is_zero_checks(d, inverse);
    assert(eval(checks[0].1, w, row) % p == 0);
    assert(eval(checks[1].1, w, row) % p == 0);
    crate::math_gadgets::is_zero::lemma_is_zero_sound(g, w, row);
    // the values of the bytes
    let ds = evals(cell_exprs(bytes), w, row);
    assert forall|i: int| 0 <= i < 16 implies 0 <= #[trigger] ds[i] < 256 by {
        assert(ds[i] == eval(e_cell(bytes[i]), w, row));
    }
    lemma_eval_from_limbs(cell_exprs(bytes), 8, w, row);
    lemma_eval_from_limbs(cell_exprs(bytes.take(n as int)), 8, w, row);
    assert(evals(cell_exprs(bytes.take(n as int)), w, row) =~= ds.take(n as int));
    assert(evals(cell_exprs(bytes), w, row).skip(n as int) =~= ds.skip(n as int));
    let all = weighted_sum(ds, 8);
    let low = weighted_sum(ds.take(n as int), 8);
    let high = weighted_sum(ds.skip(n as int), 8);
    lemma_weighted_sum_split(ds, n, 8);
    assert forall|i: int| 0 <= i < ds.skip(n as int).len() implies 0 <= #[trigger] ds.skip(n as int)[i] < 256 by {
        assert(ds.skip(n as int)[i] == ds[n + i]);
    }
    assert forall|i: int| 0 <= i < n implies 0 <= #[trigger] ds.take(n as int)[i] < 256 by {}
    lemma_bytes_weighted_sum_bound(ds, 16);
    lemma_bytes_weighted_sum_bound(ds.take(n as int), n);
    lemma_bytes_weighted_sum_bound(ds.skip(n as int), (16 - n) as nat);
    lemma_pow2_pos(8 * n);
    assert(all == eval(e_bytes(bytes), w, row));
    assert(low == eval(e_bytes(bytes.take(n as int)), w, row));
    assert(high >= 0);
    // the tested value is the high part, modulo the field order
    reveal_with_fuel(eval, 3);
    let v = eval(value, w, row);
    assert(eval(e_sub(value, e_bytes(bytes)), w, row) == v - all);
    assert(eval(d, w, row) == v - low);
    let x = all - low;
    assert(x == pow2(8 * n) * high);
    lemma_pow2_strictly_increases(128, 254);
    assert(0 <= x < pow2(128)) by {
        assert(8 * 16 == 128);
    }
    lemma_fundamental_div_mod(v - all, p);
    let q = (v - all) / p;
    assert(v - low == x + p * q);
    lemma_mod_multiples_vanish(q, x, p);
    lemma_small_mod(x as nat, p as nat);
    assert(eval(d, w, row) % p == x);
    if high == 0 {
        assert(x == 0) by (nonlinear_arith) requires x == pow2(8 * n) * high, high == 0;
        let dv = eval(d, w, row);
        let iv = w(inverse.column as int, row + inverse.rotation as int);
        lemma_mul_mod_noop_general(dv, iv, p);
        assert((dv % p) * iv == 0);
        assert(0int % p == 0);
        lemma_sub_mod_noop(1, dv * iv, p);
        lemma_small_mod(1, p as nat);
        assert(eval(g.is_zero, w, row) == 1 - dv * iv);
    } else {
        assert(pow2(8 * n) * high >= pow2(8 * n)) by (nonlinear_arith)
            requires high >= 1, pow2(8 * n) > 0;
    }
    assert(eval(e_in_range(value, bytes, n, inverse), w, row) == eval(g.is_zero, w, row));
}

/// A product with a factor that is `1` in the field vanishes with the other
/// factor.
pub proof fn lemma_unit_factor(f: int, x: int)
    requires
        f % (modulus() as int) == 1,
        (f * x) % (modulus() as int) == 0,
    ensures
        x % (modulus() as int) == 0,
{
    let p = modulus() as int;
    lemma_modulus_bounds();
    lemma_mul_mod_noop_general(f, x, p);
    lemma_mod_twice(x, p);
    assert((f % p) * (x % p) == x % p);
}

/// The overflow flag of a width test tells the range: under a width flag
/// that is `1`, when the limb is made of its bytes, the range test's checks
/// hold and `overflow == !in_range(value)`, a boolean `overflow` is `0`
/// exactly when the bytes' value is below `256^n`.
pub proof fn lemma_overflow_flag(flag: Expression, overflow: Cell, value: Expression, bytes: Seq<Cell>, n: nat,
    inverse: Cell, w: Witness, row: int)
    requires
        bytes.len() == 16,
        n <= 16,
        forall|i: int| 0 <= i < 16 ==> 0 <= #[trigger] eval(e_cell(bytes[i]), w, row) < 256,
        eval(e_cell(overflow), w, row) == 0 || eval(e_cell(overflow), w, row) == 1,
        eval(flag, w, row) % (modulus() as int) == 1,
        eval(e_mul(flag, e_sub(value, e_bytes(bytes))), w, row) % (modulus() as int) == 0,
        forall|k: int| 0 <= k < 2 ==> #[trigger] eval(e_mul(flag, is_zero_checks(
            e_sub(value, e_bytes(bytes.take(n as int))), inverse)[k].1), w, row) % (modulus() as int) == 0,
        eval(e_mul(flag, e_sub(e_cell(overflow), e_sub(e_const(1), e_in_range(value, bytes, n, inverse)))), w, row)
            % (modulus() as int) == 0,
    ensures
        eval(e_cell(overflow), w, row) == 0 <==> eval(e_bytes(bytes), w, row) < pow2(8 * n),
        eval(e_sub(value, e_bytes(bytes)), w, row) % (modulus() as int) == 0,
        0 <= eval(e_bytes(bytes), w, row) < pow2(128),
{
    let p = modulus() as int;
    lemma_modulus_bounds();
    reveal_with_fuel(eval, 3);
    let f = eval(flag, w, row);
    lemma_unit_factor(f, eval(e_sub(value, e_bytes(bytes)), w, row));
    let checks = is_zero_checks(e_sub(value, e_bytes(bytes.take(n as int))), inverse);
    assert forall|k: int| 0 <= k < 2 implies #[trigger] eval(checks[k].1, w, row) % p == 0 by {
        assert(eval(e_mul(flag, checks[k].1), w, row) % p == 0);
        lemma_unit_factor(f, eval(checks[k].1, w, row));
    }
    lemma_in_range_sound(value, bytes, n, inverse, w, row);
    let o = eval(e_cell(overflow), w, row);
    let r = eval(e_in_range(value, bytes, n, inverse), w, row);
    assert(eval(e_sub(e_const(1), e_in_range(value, bytes, n, inverse)), w, row) == 1 - r);
    assert(eval(e_sub(e_cell(overflow), e_sub(e_const(1), e_in_range(value, bytes, n, inverse))), w, row) == o - (1 - r));
    lemma_unit_factor(f, o - (1 - r));
    // r = 1 - o modulo p
    lemma_fundamental_div_mod(o - (1 - r), p);
    let q = (o - (1 - r)) / p;
    assert(r == 1 - o + p * q);
    lemma_mod_multiples_vanish(q, 1 - o, p);
    lemma_small_mod((1 - o) as nat, p as nat);
    assert(r % p == 1 - o);
}

} // verus!
