use vstd::prelude::*;
use vstd::arithmetic::power2::*;
use crate::builder::{ConstraintBuilder, byte_range_records, e_boolean, fresh_cells};
use crate::bytes::{digit, le_value, lemma_digits_of_le_value};
use crate::expr::{Cell, Expression, cell_exprs, cell_exprs_of, e_cell, e_from_limbs};
use crate::field::{Fe, modulus};
use crate::math_gadgets::is_zero::{IsZeroGadget, e_is_zero, is_zero_checks, zero_test};
use crate::sub_index::polys_at;
use crate::math_gadgets::lt::{LtGadget, e_lt_poly, MAX_N_BYTES_INTEGER, lemma_lt_assign_exact};

verus! {

/// Returns `(lt, eq)`: `lt` is `1` when `lhs < rhs`, `eq` is `1` when
/// `lhs == rhs`. The equality reuses the diff bytes of the less-than check:
/// they sum to zero exactly when the two sides are equal.
#[derive(Debug)]
pub struct ComparisonGadget<const N_BYTES: usize> {
    pub lt: LtGadget<N_BYTES>,
    pub eq: IsZeroGadget,
}

/// The sum of a byte sequence.
pub open spec fn byte_sum(s: Seq<u8>) -> nat
    decreases s.len(),
{
    if s.len() == 0 { 0 } else { byte_sum(s.drop_last()) + s.last() as nat }
}

/// The sum of the first `n` base-256 digits of `x`.
pub open spec fn digit_sum(x: nat, n: nat) -> nat
    decreases n,
{
    if n == 0 { 0 } else { digit_sum(x, (n - 1) as nat) + digit(x, 8, (n - 1) as nat) }
}

/// The value whose bytes the diff cells of the comparison hold:
/// `lhs - rhs + lt * 256^n` in the field.
pub open spec fn comparison_diff(lhs: nat, rhs: nat, n: nat) -> nat {
    ((lhs - rhs + (if lhs < rhs { 1int } else { 0int }) * pow2(8 * n)) % (modulus() as int)) as nat
}

/// The sum of the first bytes of an encoding is the sum of the first digits
/// of its value.
proof fn lemma_byte_sum_digits(s: Seq<u8>, n: nat)
    requires
        n <= s.len(),
    ensures
        byte_sum(s.take(n as int)) == digit_sum(le_value(s), n),
    decreases n,
{
    if n > 0 {
        lemma_byte_sum_digits(s, (n - 1) as nat);
        assert(s.take(n as int).drop_last() =~= s.take(n - 1));
        lemma_digits_of_le_value(s, le_value(s), (n - 1) as nat);
    }
}

impl<const N_BYTES: usize> ComparisonGadget<N_BYTES> {
    pub fn construct(cb: &mut ConstraintBuilder, lhs: Expression, rhs: Expression) -> (r: Self)
        requires
            N_BYTES <= MAX_N_BYTES_INTEGER,
            old(cb).has_room(N_BYTES as nat + 2),
        ensures
            r.lt.range.val() == pow2(8 * N_BYTES as nat),
            r.lt.diff@.len() == N_BYTES,
            r.eq.value == e_from_limbs(cell_exprs(r.lt.diff@), 0),
            r.eq.is_zero == e_is_zero(r.eq.value, r.eq.inverse),
            final(cb).next_column == old(cb).next_column + N_BYTES + 2,
            r.lt.lt == (Cell { column: old(cb).next_column, rotation: 0 }),
            fresh_cells(r.lt.diff@, old(cb).next_column as nat + 1),
            final(cb).lookups@.len() == old(cb).lookups@.len() + N_BYTES,
            r.eq.inverse == (Cell { column: (old(cb).next_column + N_BYTES + 1) as usize, rotation: 0 }),
            final(cb).constraints@ == old(cb).constraints@ + seq![
                old(cb).spec_constraint("Constrain cell to be a bool", e_boolean(e_cell(r.lt.lt))),
                old(cb).spec_constraint("lhs - rhs == diff - (lt ⋅ range)", e_lt_poly(lhs, rhs, r.lt.lt, r.lt.diff@, N_BYTES as nat)),
            ] + polys_at(is_zero_checks(r.eq.value, r.eq.inverse), old(cb).scope, old(cb).condition),
            final(cb).lookups@.take(old(cb).lookups@.len() as int) == old(cb).lookups@,
            byte_range_records(final(cb).lookups@.skip(old(cb).lookups@.len() as int), r.lt.diff@, old(cb).scope, old(cb).condition),
            final(cb).requirements == old(cb).requirements,
            final(cb).curr == old(cb).curr,
            final(cb).scope == old(cb).scope,
            final(cb).condition == old(cb).condition,
    {
        let lt = LtGadget::<N_BYTES>::construct(cb, lhs, rhs);
        let diff = lt.diff_bytes();
        let terms = cell_exprs_of(diff.as_slice());
        let eq = IsZeroGadget::construct(cb, Expression::sum(&terms));
        eq.constrain(cb);
        ComparisonGadget { lt, eq }
    }

    /// `(lt, eq)`.
    pub fn expr(&self) -> (r: (Expression, Expression))
        ensures
            r.0 == e_cell(self.lt.lt),
            r.1 == self.eq.is_zero,
    {
        (self.lt.expr(), self.eq.expr())
    }

    /// The witness: `lt`, `eq` and the inverse of the sum of the diff bytes
    /// (zero for zero).
    pub fn assign(&self, lhs: &Fe, rhs: &Fe) -> (r: (Fe, Fe, Fe))
        requires
            N_BYTES <= MAX_N_BYTES_INTEGER,
            self.lt.range.val() == pow2(8 * N_BYTES as nat),
        ensures
            r.0.val() == (if lhs.val() < rhs.val() { 1nat } else { 0nat }),
            lhs.val() < pow2(8 * N_BYTES as nat) && rhs.val() < pow2(8 * N_BYTES as nat) ==>
                r.1.val() == (if lhs.val() == rhs.val() { 1nat } else { 0nat }),
            r.1.val() == 1 ==> r.2.val() == 0,
            r.1.val() == 0 ==> r.2.val() != 0,
            zero_test(digit_sum(comparison_diff(lhs.val(), rhs.val(), N_BYTES as nat), N_BYTES as nat), (r.2, r.1)),
    {
        let (lt, diff) = self.lt.assign(lhs, rhs);
        let mut sum: u64 = 0;
        let mut i: usize = 0;
        while i < N_BYTES
            invariant
                i <= N_BYTES,
                N_BYTES <= MAX_N_BYTES_INTEGER,
                diff@.len() == 32,
                sum == byte_sum(diff@.take(i as int)),
                sum <= 255 * i,
            decreases N_BYTES - i,
        {
            proof {
                assert(diff@.take(i as int + 1).drop_last() =~= diff@.take(i as int));
            }
            sum = sum + diff[i] as u64;
            i = i + 1;
        }
        let sum_fe = Fe::from_u64(sum);
        let (inverse, eq) = self.eq.assign(&sum_fe);
        proof {
            let n = N_BYTES as nat;
            if lhs.val() < pow2(8 * n) && rhs.val() < pow2(8 * n) {
                lemma_lt_assign_exact(lhs.val(), rhs.val(), lt.val(), n, diff@);
                lemma_byte_sum_zero(diff@.take(n as int));
                lemma_le_value_zero(diff@.take(n as int));
                if lhs.val() < rhs.val() {
                    assert(lhs.val() - rhs.val() + lt.val() * pow2(8 * n) > 0);
                }
            }
        }
        proof {
            lemma_byte_sum_digits(diff@, N_BYTES as nat);
            assert(le_value(diff@) == comparison_diff(lhs.val(), rhs.val(), N_BYTES as nat));
            assert(zero_test(sum_fe.val(), (inverse, eq)));
            if sum_fe.val() != 0 {
                assert((sum_fe.val() * inverse.val()) % modulus() == 1);
                if inverse.val() == 0 {
                    assert(sum_fe.val() * inverse.val() == 0);
                    assert(0nat % modulus() == 0);
                }
            }
        }
        (lt, eq, inverse)
    }
}

/// A byte sequence sums to zero exactly when every byte is zero.
pub proof fn lemma_byte_sum_zero(s: Seq<u8>)
    ensures
        (byte_sum(s) == 0) == (forall|i: int| 0 <= i < s.len() ==> s[i] == 0),
    decreases s.len(),
{
    if s.len() > 0 {
        lemma_byte_sum_zero(s.drop_last());
        if byte_sum(s) != 0 {
            if forall|i: int| 0 <= i < s.len() ==> s[i] == 0 {
                assert forall|i: int| 0 <= i < s.drop_last().len() implies s.drop_last()[i] == 0 by {
                    assert(s.drop_last()[i] == s[i]);
                }
                assert(s.last() == s[s.len() - 1]);
            }
        } else {
            assert forall|i: int| 0 <= i < s.len() implies s[i] == 0 by {
                if i < s.len() - 1 {
                    assert(s.drop_last()[i] == s[i]);
                }
            }
        }
    }
}

/// A byte sequence writes zero exactly when every byte is zero.
pub proof fn lemma_le_value_zero(s: Seq<u8>)
    ensures
        (le_value(s) == 0) == (forall|i: int| 0 <= i < s.len() ==> s[i] == 0),
    decreases s.len(),
{
    if s.len() > 0 {
        lemma_le_value_zero(s.drop_first());
        if le_value(s) == 0 {
            assert forall|i: int| 0 <= i < s.len() implies s[i] == 0 by {
                if i > 0 {
                    assert(s.drop_first()[i - 1] == s[i]);
                }
            }
        } else {
            if forall|i: int| 0 <= i < s.len() ==> s[i] == 0 {
                assert forall|i: int| 0 <= i < s.drop_first().len() implies s.drop_first()[i] == 0 by {
                    assert(s.drop_first()[i] == s[i + 1]);
                }
            }
        }
    }
}

} // verus!
