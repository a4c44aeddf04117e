use vstd::prelude::*;
use vstd::arithmetic::power2::*;

verus! {

/// The number written by `s` in little-endian base 256.
pub open spec fn le_value(s: Seq<u8>) -> nat
    decreases s.len(),
{
    if s.len() == 0 {
        0
    } else {
        s[0] as nat + 256 * le_value(s.drop_first())
    }
}

/// The number written by `s` in little-endian base `2^bits`.
pub open spec fn limbs_value(s: Seq<int>, bits: nat) -> int
    decreases s.len(),
{
    if s.len() == 0 {
        0
    } else {
        s[0] + pow2(bits) * limbs_value(s.drop_first(), bits)
    }
}

/// Digit `k` of `x` in base `2^bits`.
pub open spec fn digit(x: nat, bits: nat, k: nat) -> nat {
    (x / pow2(bits * k)) % pow2(bits)
}

/// A little-endian byte sequence is bounded by 256 to the power of its length.
pub proof fn lemma_le_value_bound(s: Seq<u8>)
    ensures
        le_value(s) < pow2(8 * s.len()),
    decreases s.len(),
{
    if s.len() == 0 {
        lemma2_to64();
    } else {
        lemma_le_value_bound(s.drop_first());
        lemma_pow2_adds(8, 8 * (s.len() - 1) as nat);
        lemma2_to64();
        assert(8 + 8 * (s.len() - 1) as nat == 8 * s.len());
    }
}


/// A sequence whose entries are the base-256 digits of `x` writes `x` modulo
/// 256 to the power of its length.
pub proof fn lemma_le_value_of_digits(s: Seq<u8>, x: nat)
    requires
        forall|j: int| 0 <= j < s.len() ==> s[j] as nat == #[trigger] digit(x, 8, j as nat),
    ensures
        le_value(s) == x % pow2(8 * s.len()),
    decreases s.len(),
{
    if s.len() == 0 {
        lemma2_to64();
    } else {
        let t = s.drop_first();
        assert forall|j: int| 0 <= j < t.len() implies t[j] as nat == #[trigger] digit(x / 256, 8, j as nat) by {
            assert(s[j + 1] as nat == digit(x, 8, (j + 1) as nat));
            lemma_digit_shift(x, j as nat);
        }
        lemma_le_value_of_digits(t, x / 256);
        assert(s[0] as nat == digit(x, 8, 0));
        lemma2_to64();
        assert(pow2(8 * 0) == 1);
        let n = t.len();
        lemma_pow2_adds(8, 8 * n);
        assert(8 + 8 * n == 8 * s.len());
        lemma_pow2_pos(8 * n);
        vstd::arithmetic::div_mod::lemma_breakdown(x as int, 256, pow2(8 * n) as int);
    }
}

/// Digit `j + 1` of `x` is digit `j` of `x / 256`.
pub proof fn lemma_digit_shift(x: nat, j: nat)
    ensures
        digit(x, 8, j + 1) == digit(x / 256, 8, j),
{
    lemma2_to64();
    lemma_pow2_adds(8, 8 * j);
    assert(8 * (j + 1) == 8 + 8 * j);
    lemma_pow2_pos(8 * j);
    vstd::arithmetic::div_mod::lemma_div_denominator(x as int, 256, pow2(8 * j) as int);
}


/// Splitting a little-endian byte sequence at `n`.
pub proof fn lemma_le_value_split(s: Seq<u8>, n: nat)
    requires
        n <= s.len(),
    ensures
        le_value(s) == le_value(s.take(n as int)) + pow2(8 * n) * le_value(s.skip(n as int)),
    decreases n,
{
    if n == 0 {
        lemma2_to64();
        assert(s.skip(0) =~= s);
        assert(pow2(8 * 0) == 1);
    } else {
        let t = s.drop_first();
        lemma_le_value_split(t, (n - 1) as nat);
        assert(s.take(n as int).drop_first() =~= t.take(n - 1));
        assert(s.skip(n as int) =~= t.skip(n - 1));
        lemma_pow2_adds(8, 8 * (n - 1) as nat);
        assert(8 + 8 * (n - 1) as nat == 8 * n);
        lemma2_to64();
        assert(s.take(n as int)[0] == s[0]);
        assert(256 * (le_value(t.take(n - 1)) + pow2(8 * (n - 1) as nat) * le_value(t.skip(n - 1)))
            == 256 * le_value(t.take(n - 1)) + (256 * pow2(8 * (n - 1) as nat)) * le_value(t.skip(n - 1))) by (nonlinear_arith);
    }
}

/// A little-endian byte sequence below `256^n` has only zeros from `n` on, and
/// its first `n` bytes write the same number.
pub proof fn lemma_le_value_small(s: Seq<u8>, n: nat)
    requires
        n <= s.len(),
        le_value(s) < pow2(8 * n),
    ensures
        le_value(s.take(n as int)) == le_value(s),
        le_value(s.skip(n as int)) == 0,
{
    lemma_le_value_split(s, n);
    lemma_le_value_bound(s.take(n as int));
    lemma_pow2_pos(8 * n);
    if le_value(s.skip(n as int)) > 0 {
        assert(pow2(8 * n) * le_value(s.skip(n as int)) >= pow2(8 * n)) by (nonlinear_arith)
            requires le_value(s.skip(n as int)) >= 1, pow2(8 * n) > 0;
    }
}

/// The weighted sum of byte values with weights `256^i` is their
/// little-endian value.
pub proof fn lemma_weighted_sum_of_bytes(s: Seq<u8>)
    ensures
        crate::expr::weighted_sum(s.map_values(|b: u8| b as int), 8) == le_value(s),
    decreases s.len(),
{
    if s.len() > 0 {
        let n = s.len();
        let t = s.drop_last();
        lemma_weighted_sum_of_bytes(t);
        assert(s.map_values(|b: u8| b as int).drop_last() =~= t.map_values(|b: u8| b as int));
        lemma_le_value_split(s, (n - 1) as nat);
        assert(s.take(n - 1) =~= t);
        let last = s.skip(n - 1);
        assert(last.drop_first().len() == 0);
        assert(le_value(last) == s[n - 1] as nat + 256 * le_value(last.drop_first()));
        assert(le_value(last) == s[n - 1] as nat);
        let m = s.map_values(|b: u8| b as int);
        assert(m.last() == s[n - 1] as int);
        assert(crate::expr::weighted_sum(m, 8) == crate::expr::weighted_sum(m.drop_last(), 8) + m.last() * pow2(8 * (n - 1) as nat));
        vstd::arithmetic::mul::lemma_mul_is_commutative(m.last(), pow2(8 * (n - 1) as nat) as int);
    }
}


/// The bytes of a little-endian encoding of `x` are the base-256 digits of `x`.
pub proof fn lemma_digits_of_le_value(s: Seq<u8>, x: nat, i: nat)
    requires
        le_value(s) == x,
        i < s.len(),
    ensures
        s[i as int] as nat == digit(x, 8, i),
    decreases i,
{
    lemma2_to64();
    let t = s.drop_first();
    if i == 0 {
        assert(pow2(8 * 0) == 1);
        vstd::arithmetic::div_mod::lemma_mod_multiples_vanish(le_value(t) as int, s[0] as int, 256);
        vstd::arithmetic::div_mod::lemma_small_mod(s[0] as nat, 256);
    } else {
        lemma_digits_of_le_value(t, le_value(t), (i - 1) as nat);
        assert(t[i - 1] == s[i as int]);
        lemma_digit_shift(x, (i - 1) as nat);
        vstd::arithmetic::div_mod::lemma_div_multiples_vanish_fancy(le_value(t) as int, s[0] as int, 256);
        assert(x / 256 == le_value(t));
    }
}

} // verus!
