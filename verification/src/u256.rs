use vstd::prelude::*;
use vstd::arithmetic::power2::*;
use crate::bytes::digit;
use crate::expr::weighted_sum;

verus! {

/// `2^128`.
pub open spec fn two_128() -> nat {
    0x1_0000_0000_0000_0000_0000_0000_0000_0000nat
}

/// `2^256`.
pub open spec fn two_256() -> nat {
    two_128() * two_128()
}

pub proof fn lemma_two_128()
    ensures
        pow2(128) == two_128(),
        pow2(256) == two_256(),
{
    lemma2_to64();
    lemma_pow2_adds(64, 64);
    lemma_pow2_adds(128, 128);
}

/// `x + y` as a 128-bit sum and a carry.
pub fn add_u128(x: u128, y: u128) -> (r: (u128, u128))
    ensures
        r.1 <= 1,
        r.0 + r.1 * two_128() == x + y,
{
    if x <= u128::MAX - y {
        (x + y, 0)
    } else {
        (x - (u128::MAX - y) - 1, 1)
    }
}

/// `x - y` as a 128-bit difference and a borrow.
pub fn sub_u128(x: u128, y: u128) -> (r: (u128, u128))
    ensures
        r.1 <= 1,
        r.0 - r.1 * two_128() == x - y,
{
    if y <= x {
        (x - y, 0)
    } else {
        (u128::MAX - (y - x) + 1, 1)
    }
}

/// A 256-bit unsigned integer as its low and high 128-bit halves, the form in
/// which the circuit holds every Move integer.
#[derive(Clone, Copy, PartialEq, Eq, Debug)]
pub struct U256 {
    pub lo: u128,
    pub hi: u128,
}

impl U256 {
    /// The number the pair stands for.
    pub open spec fn val(self) -> nat {
        self.lo as nat + self.hi as nat * two_128()
    }

    pub fn new(lo: u128, hi: u128) -> (r: U256)
        ensures
            r.lo == lo,
            r.hi == hi,
    {
        U256 { lo, hi }
    }

    pub fn zero() -> (r: U256)
        ensures
            r.val() == 0,
    {
        U256 { lo: 0, hi: 0 }
    }

    pub fn one() -> (r: U256)
        ensures
            r.val() == 1,
    {
        U256 { lo: 1, hi: 0 }
    }

    /// `(a + b) mod 2^256` (`U256::wrapping_add`).
    pub fn wrapping_add(a: U256, b: U256) -> (r: U256)
        ensures
            r.val() == (a.val() + b.val()) % two_256(),
    {
        let (lo, c0) = add_u128(a.lo, b.lo);
        let (h1, c1) = add_u128(a.hi, b.hi);
        let (h2, c2) = add_u128(h1, c0);
        proof {
            let k = two_128() as int;
            assert(a.val() + b.val() == lo + h2 * k + (c1 + c2) * (k * k)) by (nonlinear_arith)
                requires
                    k == two_128(),
                    a.val() == a.lo + a.hi * k,
                    b.val() == b.lo + b.hi * k,
                    lo + c0 * k == a.lo + b.lo,
                    h1 + c1 * k == a.hi + b.hi,
                    h2 + c2 * k == h1 + c0;
            vstd::arithmetic::div_mod::lemma_mod_multiples_vanish((c1 + c2) as int, lo + h2 * k, k * k);
            vstd::arithmetic::div_mod::lemma_small_mod((lo + h2 * k) as nat, (k * k) as nat);
            vstd::arithmetic::mul::lemma_mul_is_commutative((c1 + c2) as int, k * k);
        }
        U256 { lo, hi: h2 }
    }

    /// `(a - b) mod 2^256` (`U256::wrapping_sub`).
    pub fn wrapping_sub(a: U256, b: U256) -> (r: U256)
        ensures
            r.val() == (a.val() - b.val()) % (two_256() as int),
    {
        let (lo, b0) = sub_u128(a.lo, b.lo);
        let (h1, b1) = sub_u128(a.hi, b.hi);
        let (h2, b2) = sub_u128(h1, b0);
        proof {
            let k = two_128() as int;
            assert(a.val() - b.val() == lo + h2 * k - (b1 + b2) * (k * k)) by (nonlinear_arith)
                requires
                    k == two_128(),
                    a.val() == a.lo + a.hi * k,
                    b.val() == b.lo + b.hi * k,
                    lo - b0 * k == a.lo - b.lo,
                    h1 - b1 * k == a.hi - b.hi,
                    h2 - b2 * k == h1 - b0;
            vstd::arithmetic::div_mod::lemma_mod_multiples_vanish(-(b1 + b2), lo + h2 * k, k * k);
            vstd::arithmetic::div_mod::lemma_small_mod((lo + h2 * k) as nat, (k * k) as nat);
            vstd::arithmetic::mul::lemma_mul_is_commutative(-(b1 + b2), k * k);
        }
        U256 { lo, hi: h2 }
    }

    /// `self >> 128`.
    pub fn shr_128(self) -> (r: U256)
        ensures
            r.lo == self.hi,
            r.hi == 0,
            r.val() == self.val() / two_128(),
    {
        proof {
            vstd::arithmetic::div_mod::lemma_div_multiples_vanish_fancy(self.hi as int, self.lo as int, two_128() as int);
            vstd::arithmetic::mul::lemma_mul_is_commutative(self.hi as int, two_128() as int);
        }
        U256 { lo: self.hi, hi: 0 }
    }

    pub fn from_u128(x: u128) -> (r: U256)
        ensures
            r.val() == x,
            r.lo == x,
            r.hi == 0,
    {
        U256 { lo: x, hi: 0 }
    }
}

/// `(lo, hi)` of a 256-bit integer (`split_u256_to_u128`).
pub fn split_u256_to_u128(x: U256) -> (r: (u128, u128))
    ensures
        r.0 == x.lo,
        r.1 == x.hi,
{
    (x.lo, x.hi)
}

/// The 256-bit integer `lo + hi * 2^128` (`pair_u128_to_u256`).
pub fn pair_u128_to_u256(lo: u128, hi: u128) -> (r: U256)
    ensures
        r.lo == lo,
        r.hi == hi,
        r.val() == lo + hi * two_128(),
{
    U256 { lo, hi }
}

/// Nibble `j` of a 256-bit integer in little-endian order: the nibbles of the
/// low half come first, then those of the high half.
pub open spec fn nibble_of(x: U256, j: int) -> nat {
    if j < 32 {
        digit(x.lo as nat, 4, j as nat)
    } else {
        digit(x.hi as nat, 4, (j - 32) as nat)
    }
}

/// Conversion to half-byte array in little-endian order.
pub trait ToNibbles {
    fn to_nibbles(&self) -> [u8; 64];
}

proof fn lemma_nibbles_of_byte(x: u128, s: u128, lo: u8, hi: u8)
    requires
        s < 128,
        s % 8 == 0,
        lo == ((x >> s) as u8) & 0x0F,
        hi == (((x >> s) as u8) & 0xF0) >> 4,
    ensures
        lo as nat == digit(x as nat, 4, (s / 4) as nat),
        hi as nat == digit(x as nat, 4, (s / 4 + 1) as nat),
{
    assert(lo as u128 == (x >> s) % 16) by (bit_vector)
        requires
            s < 128,
            lo == ((x >> s) as u8) & 0x0F,
    ;
    assert(hi as u128 == (x >> (s + 4)) % 16) by (bit_vector)
        requires
            s < 124,
            hi == (((x >> s) as u8) & 0xF0) >> 4,
    ;
    vstd::bits::lemma_u128_shr_is_div(x, s);
    vstd::bits::lemma_u128_shr_is_div(x, (s + 4) as u128);
    lemma2_to64();
    assert(4 * (s / 4) == s);
    assert(4 * (s / 4 + 1) == s + 4);
}

impl ToNibbles for U256 {
    fn to_nibbles(&self) -> (r: [u8; 64])
        ensures
            forall|j: int| 0 <= j < 64 ==> r@[j] as nat == #[trigger] nibble_of(*self, j),
    {
        let mut r = [0u8; 64];
        let mut k: usize = 0;
        while k < 32
            invariant
                k <= 32,
                forall|j: int| 0 <= j < 2 * k ==> r@[j] as nat == #[trigger] nibble_of(*self, j),
            decreases 32 - k,
        {
            let half = if k < 16 { self.lo } else { self.hi };
            let s: u128 = if k < 16 { 8 * (k as u128) } else { 8 * ((k - 16) as u128) };
            let byte: u8 = (half >> s) as u8;
            let lo = byte & 0x0F;
            let hi = (byte & 0xF0) >> 4;
            proof {
                lemma_nibbles_of_byte(half, s, lo, hi);
            }
            r[2 * k] = lo;
            r[2 * k + 1] = hi;
            k = k + 1;
        }
        r
    }
}

/// The nibbles of a 128-bit half, weighted by powers of 16, give back the half:
/// the composition that the bitwise gadgets require of their nibble cells.
pub proof fn lemma_nibbles_compose(x: u128)
    ensures
        weighted_sum(Seq::new(32, |j: int| digit(x as nat, 4, j as nat) as int), 4) == x,
{
    lemma_weighted_sum_digits(x as nat, 4, 32);
    crate::field::lemma_u128_below_pow2_128(x);
    vstd::arithmetic::div_mod::lemma_small_mod(x as nat, pow2(128));
}

/// The first `n` digits of `x` in base `2^bits`, weighted, are `x mod 2^(bits n)`.
pub proof fn lemma_weighted_sum_digits(x: nat, bits: nat, n: nat)
    requires
        bits > 0,
    ensures
        weighted_sum(Seq::new(n, |j: int| digit(x, bits, j as nat) as int), bits)
            == x % pow2(bits * n),
    decreases n,
{
    let s = Seq::new(n, |j: int| digit(x, bits, j as nat) as int);
    if n == 0 {
        lemma2_to64();
        assert(pow2(bits * 0) == 1);
    } else {
        lemma_weighted_sum_digits(x, bits, (n - 1) as nat);
        assert(s.drop_last() =~= Seq::new((n - 1) as nat, |j: int| digit(x, bits, j as nat) as int));
        let m = bits * (n - 1) as nat;
        lemma_pow2_pos(m);
        lemma_pow2_pos(bits);
        lemma_pow2_adds(m, bits);
        assert(m + bits == bits * n) by (nonlinear_arith)
            requires m == bits * (n - 1) as nat, n >= 1;
        vstd::arithmetic::div_mod::lemma_breakdown(x as int, pow2(m) as int, pow2(bits) as int);
        vstd::arithmetic::mul::lemma_mul_is_commutative(pow2(m) as int, ((x / pow2(m)) % pow2(bits)) as int);
    }
}


/// The number written by `bytes[start .. start + 16]` in little-endian order.
fn le_u128(bytes: &[u8; 32], start: usize) -> (r: u128)
    requires
        start == 0 || start == 16,
    ensures
        r as nat == crate::bytes::le_value(bytes@.subrange(start as int, start + 16)),
{
    let mut acc: u128 = 0;
    let mut i: usize = 16;
    proof {
        lemma2_to64();
        assert(bytes@.subrange(start + 16, start + 16).len() == 0);
    }
    while i > 0
        invariant
            i <= 16,
            start == 0 || start == 16,
            acc as nat == crate::bytes::le_value(bytes@.subrange(start + i, start + 16)),
            (acc as nat) < pow2(8 * (16 - i) as nat),
        decreases i,
    {
        let b = bytes[start + i - 1];
        proof {
            let t = bytes@.subrange(start + i - 1, start + 16);
            assert(t.drop_first() =~= bytes@.subrange(start + i, start + 16));
            assert(t[0] == b);
            lemma_pow2_adds(8 * (16 - i) as nat, 8);
            lemma2_to64();
            lemma_two_128();
            if 8 * (16 - i + 1) < 128 {
                lemma_pow2_strictly_increases((8 * (16 - i + 1)) as nat, 128);
            }
            assert(8 * (16 - i) as nat + 8 == 8 * (16 - i + 1) as nat);
            assert(acc * 256 + b < pow2(8 * (16 - i) as nat) * 256) by (nonlinear_arith)
                requires acc < pow2(8 * (16 - i) as nat), b < 256;
        }
        acc = acc * 256 + b as u128;
        i = i - 1;
    }
    acc
}

impl U256 {
    /// The 256-bit integer written by 32 little-endian bytes
    /// (`U256::from_le_bytes`).
    pub fn from_le_bytes(bytes: &[u8; 32]) -> (r: U256)
        ensures
            r.val() == crate::bytes::le_value(bytes@),
    {
        let lo = le_u128(bytes, 0);
        let hi = le_u128(bytes, 16);
        proof {
            crate::bytes::lemma_le_value_split(bytes@, 16);
            assert(bytes@.take(16) =~= bytes@.subrange(0, 16));
            assert(bytes@.skip(16) =~= bytes@.subrange(16, 32));
            lemma_two_128();
            assert(8 * 16nat == 128);
            let a = crate::bytes::le_value(bytes@.subrange(0, 16));
            let b = crate::bytes::le_value(bytes@.subrange(16, 32));
            assert(crate::bytes::le_value(bytes@) == a + pow2(128) * b);
            assert(pow2(128) * b == b * two_128()) by (nonlinear_arith) requires pow2(128) == two_128();
        }
        U256 { lo, hi }
    }
}

} // verus!
