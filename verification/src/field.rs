use vstd::prelude::*;
use vstd::arithmetic::power2::*;
use vstd::arithmetic::div_mod::{lemma_fundamental_div_mod, lemma_mod_multiples_basic, lemma_mul_mod_noop_left,
    lemma_mul_mod_noop_right, lemma_small_mod};
use crate::bytes::{digit, le_value, lemma_le_value_of_digits};
use halo2_proofs::arithmetic::Field;
use halo2_proofs::pasta::group::ff::PrimeField;
use halo2_proofs::pasta::Fp;

verus! {

/// The order of the field in which every constraint is evaluated: the base
/// field of the Pallas curve, `2^254 + 0x224698fc094cf91b992d30ed00000001`.
pub open spec fn modulus() -> nat {
    0x40000000000000000000000000000000224698fc094cf91b992d30ed00000001nat
}

/// The field order exceeds `2^254`, so sums of a few values below `2^252`
/// never wrap around.
pub proof fn lemma_modulus_bounds()
    ensures
        pow2(254) < modulus(),
        modulus() < pow2(255),
{
    lemma_pow2_adds(127, 127);
    lemma_pow2_adds(127, 128);
    lemma2_to64();
    lemma2_to64_rest();
    lemma_pow2_adds(64, 63);
    lemma_pow2_adds(64, 64);
    assert(pow2(127) == 0x80000000000000000000000000000000nat);
    assert(pow2(128) == 0x100000000000000000000000000000000nat);
    assert(pow2(254) == 0x80000000000000000000000000000000nat * 0x80000000000000000000000000000000nat);
    assert(pow2(255) == 0x80000000000000000000000000000000nat * 0x100000000000000000000000000000000nat);
}

/// An element of the field, held as its canonical little-endian encoding.
#[derive(Clone, Copy, Debug)]
pub struct Fe {
    repr: [u8; 32],
}

impl Fe {
    #[verifier::type_invariant]
    spec fn canonical(self) -> bool {
        le_value(self.repr@) < modulus()
    }

    /// The integer in `[0, modulus())` that the element stands for.
    pub closed spec fn val(self) -> nat {
        le_value(self.repr@) % modulus()
    }

    /// The little-endian encoding of the element (`to_repr` of the field).
    pub fn to_repr(&self) -> (r: [u8; 32])
        ensures
            le_value(r@) == self.val(),
    {
        proof {
            use_type_invariant(self);
            vstd::arithmetic::div_mod::lemma_small_mod(le_value(self.repr@), modulus());
        }
        self.repr
    }
}

impl Fe {
    /// The element whose value is `x` (`F::from_u128`).
    pub fn from_u128(x: u128) -> (r: Fe)
        ensures
            r.val() == x,
    {
        let mut repr = [0u8; 32];
        let mut i: usize = 0;
        while i < 16
            invariant
                i <= 16,
                forall|j: int| 0 <= j < i ==> repr@[j] as nat == #[trigger] digit(x as nat, 8, j as nat),
                forall|j: int| i <= j < 32 ==> repr@[j] == 0,
            decreases 16 - i,
        {
            let s: u128 = 8 * (i as u128);
            let b: u8 = (x >> s) as u8;
            proof {
                assert(((x >> s) as u8) as u128 == (x >> s) % 256) by (bit_vector)
                    requires s < 128;
                vstd::bits::lemma_u128_shr_is_div(x, s);
                lemma2_to64();
            }
            repr[i] = b;
            i = i + 1;
        }
        proof {
            assert forall|j: int| 0 <= j < 32 implies repr@[j] as nat == #[trigger] digit(x as nat, 8, j as nat) by {
                if j >= 16 {
                    if j > 16 {
                        lemma_pow2_strictly_increases(128, (8 * j) as nat);
                    }
                    lemma2_to64();
                    lemma_u128_below_pow2_128(x);
                    vstd::arithmetic::div_mod::lemma_basic_div(x as int, pow2((8 * j) as nat) as int);
                }
            }
            lemma_le_value_of_digits(repr@, x as nat);
            lemma_u128_below_pow2_128(x);
            lemma_pow2_strictly_increases(128, 256);
            assert(repr@.len() == 32);
            vstd::arithmetic::div_mod::lemma_small_mod(x as nat, pow2(256));
            lemma_modulus_bounds();
            lemma_pow2_strictly_increases(128, 254);
            vstd::arithmetic::div_mod::lemma_small_mod(x as nat, modulus());
        }
        Fe { repr }
    }

    /// The element whose value is `x` (`F::from`).
    pub fn from_u64(x: u64) -> (r: Fe)
        ensures
            r.val() == x,
    {
        Fe::from_u128(x as u128)
    }

    /// The additive identity.
    pub fn zero() -> (r: Fe)
        ensures
            r.val() == 0,
    {
        Fe::from_u128(0)
    }

    /// The multiplicative identity.
    pub fn one() -> (r: Fe)
        ensures
            r.val() == 1,
    {
        Fe::from_u128(1)
    }

    /// `1` for `true` and `0` for `false`.
    pub fn from_bool(b: bool) -> (r: Fe)
        ensures
            r.val() == (if b { 1nat } else { 0nat }),
    {
        if b { Fe::one() } else { Fe::zero() }
    }
}

impl Fe {
    /// The element `2^k`, by `k` doublings.
    pub fn pow_of_two(k: u32) -> (r: Fe)
        requires
            k < 254,
        ensures
            r.val() == pow2(k as nat),
    {
        let mut x = Fe::one();
        let mut i: u32 = 0;
        proof {
            lemma2_to64();
        }
        while i < k
            invariant
                i <= k,
                k < 254,
                x.val() == pow2(i as nat),
            decreases k - i,
        {
            let y = fe_add(&x, &x);
            proof {
                lemma_pow2_unfold((i + 1) as nat);
                lemma_modulus_bounds();
                if i + 1 < 254 {
                    lemma_pow2_strictly_increases((i + 1) as nat, 254);
                }
                vstd::arithmetic::div_mod::lemma_small_mod(pow2((i + 1) as nat), modulus());
            }
            x = y;
            i = i + 1;
        }
        x
    }
}

/// `a + b` in the field: `Add` of `halo2_proofs::pasta::Fp`, here trusted to add
/// the two canonical values modulo the field order.
#[verifier::external_body]
pub(crate) fn fe_add(a: &Fe, b: &Fe) -> (r: Fe)
    ensures
        r.val() == (a.val() + b.val()) % modulus(),
{
    let x = Fp::from_repr(a.repr).unwrap();
    let y = Fp::from_repr(b.repr).unwrap();
    Fe { repr: (x + y).to_repr() }
}

/// `a - b` in the field: `Sub` of `halo2_proofs::pasta::Fp`, here trusted to
/// subtract the two canonical values modulo the field order.
#[verifier::external_body]
pub(crate) fn fe_sub(a: &Fe, b: &Fe) -> (r: Fe)
    ensures
        r.val() == (a.val() + modulus() - b.val()) as nat % modulus(),
{
    let x = Fp::from_repr(a.repr).unwrap();
    let y = Fp::from_repr(b.repr).unwrap();
    Fe { repr: (x - y).to_repr() }
}

/// `a * b` in the field: `Mul` of `halo2_proofs::pasta::Fp`, here trusted to
/// multiply the two canonical values modulo the field order.
#[verifier::external_body]
pub(crate) fn fe_mul(a: &Fe, b: &Fe) -> (r: Fe)
    ensures
        r.val() == (a.val() * b.val()) % modulus(),
{
    let x = Fp::from_repr(a.repr).unwrap();
    let y = Fp::from_repr(b.repr).unwrap();
    Fe { repr: (x * y).to_repr() }
}

/// `a.invert().unwrap_or(F::ZERO)`: `Field::invert` of `halo2_proofs::pasta::Fp`,
/// which fails exactly on zero, here trusted to return the multiplicative
/// inverse of a nonzero element.
#[verifier::external_body]
pub(crate) fn fe_invert_or_zero(a: &Fe) -> (r: Fe)
    ensures
        a.val() == 0 ==> r.val() == 0,
        a.val() != 0 ==> (a.val() * r.val()) % modulus() == 1,
{
    let x = Fp::from_repr(a.repr).unwrap();
    Fe { repr: x.invert().unwrap_or(Fp::ZERO).to_repr() }
}

/// `a < b` on field elements: `PartialOrd` of `halo2_proofs::pasta::Fp`, which
/// compares the canonical encodings as integers.
#[verifier::external_body]
pub(crate) fn fe_lt(a: &Fe, b: &Fe) -> (r: bool)
    ensures
        r == (a.val() < b.val()),
{
    let x = Fp::from_repr(a.repr).unwrap();
    let y = Fp::from_repr(b.repr).unwrap();
    x < y
}

/// Every `u128` lies below `2^128`.
pub proof fn lemma_u128_below_pow2_128(x: u128)
    ensures
        (x as nat) < pow2(128),
{
    lemma2_to64();
    lemma_pow2_adds(64, 64);
    assert(pow2(128) == 0x100000000000000000000000000000000nat);
}

/// Every element's value lies below the field order.
pub broadcast proof fn lemma_val_bound(x: Fe)
    ensures
        #[trigger] x.val() < modulus(),
{
}


/// The values of field elements.
pub open spec fn fe_vals(v: Seq<Fe>) -> Seq<int> {
    Seq::new(v.len(), |i: int| v[i].val() as int)
}

/// The random linear combination of field elements
/// `vals[0] + r * (vals[1] + r * (...))` in the field (`rlc::generic`).
pub fn fe_rlc(vals: &Vec<Fe>, r: &Fe) -> (res: Fe)
    ensures
        res.val() == crate::expr::rlc_value(fe_vals(vals@), r.val() as int) % (modulus() as int),
{
    let n = vals.len();
    let mut acc = Fe::zero();
    let mut i: usize = n;
    proof {
        assert(fe_vals(vals@).skip(n as int).len() == 0);
    }
    while i > 0
        invariant
            n == vals@.len(),
            i <= n,
            acc.val() == crate::expr::rlc_value(fe_vals(vals@).skip(i as int), r.val() as int) % (modulus() as int),
        decreases i,
    {
        let t = fe_mul(r, &acc);
        let next = fe_add(&vals[i - 1], &t);
        proof {
            let p = modulus() as int;
            let x = crate::expr::rlc_value(fe_vals(vals@).skip(i as int), r.val() as int);
            let v = vals@[i - 1].val() as int;
            let rr = r.val() as int;
            let sk = fe_vals(vals@).skip(i - 1);
            assert(sk.drop_first() =~= fe_vals(vals@).skip(i as int));
            assert(sk[0] == v);
            assert(crate::expr::rlc_value(sk, rr) == v + rr * x);
            vstd::arithmetic::div_mod::lemma_mul_mod_noop_right(rr, x, p);
            assert(t.val() == (rr * (x % p)) % p);
            vstd::arithmetic::div_mod::lemma_add_mod_noop_right(v, rr * x, p);
            vstd::arithmetic::div_mod::lemma_small_mod(vals@[i - 1].val(), modulus());
        }
        acc = next;
        i = i - 1;
    }
    proof {
        assert(fe_vals(vals@).skip(0) =~= fe_vals(vals@));
    }
    acc
}

/// `a * b` in the field.
pub open spec fn field_product(a: int, b: int) -> int {
    (a * b) % (modulus() as int)
}

/// The field order is prime, in the form the soundness laws use: a product
/// vanishes in the field only when one of its factors does. This is not
/// proved of `modulus()` here; the laws that need it take it as a
/// hypothesis.
pub open spec fn field_is_prime() -> bool {
    forall|a: int, b: int| #[trigger] field_product(a, b) == 0
        ==> a % (modulus() as int) == 0 || b % (modulus() as int) == 0
}

/// A boolean constraint makes a bit: in a prime field, a residue `x` with
/// `x * (1 - x)` (or `x * (x - 1)`) vanishing is `0` or `1`.
pub proof fn lemma_bit_of_boolean(x: int, y: int)
    requires
        field_is_prime(),
        0 <= x < modulus(),
        y == 1 - x || y == x - 1,
        (x * y) % (modulus() as int) == 0,
    ensures
        x == 0 || x == 1,
{
    let p = modulus() as int;
    lemma_modulus_bounds();
    assert(field_product(x, y) == 0);
    if x % p == 0 {
        lemma_small_mod(x as nat, p as nat);
    } else {
        assert(y % p == 0);
        if y == 1 - x {
            crate::math_gadgets::add::lemma_small_int_mod_zero(1 - x, p);
        } else {
            crate::math_gadgets::add::lemma_small_int_mod_zero(x - 1, p);
        }
    }
}

/// A witness whose every cell holds a field element, in `[0, modulus)`.
pub open spec fn field_witness(w: crate::expr::Witness) -> bool {
    forall|c: int, r: int| 0 <= #[trigger] w(c, r) < modulus()
}

/// `a - b` in the field, for residues `a` and `b`.
pub open spec fn field_diff(a: nat, b: nat) -> nat {
    (a + modulus() - b) as nat % modulus()
}

/// Two field values differ by zero in the field exactly when they are equal.
pub proof fn lemma_sub_zero(a: int, b: int)
    requires
        0 <= a < modulus(),
        0 <= b < modulus(),
    ensures
        ((a + modulus() - b) as nat % modulus() == 0) == (a == b),
{
    let p = modulus() as int;
    if a == b {
        vstd::arithmetic::div_mod::lemma_mod_self_0(p);
    } else if a < b {
        vstd::arithmetic::div_mod::lemma_small_mod((a + p - b) as nat, p as nat);
    } else {
        vstd::arithmetic::div_mod::lemma_mod_multiples_vanish(1, a - b, p);
        vstd::arithmetic::div_mod::lemma_small_mod((a - b) as nat, p as nat);
    }
}

/// The inverse in the field of a small positive integer (up to `7`).
pub open spec fn small_inverse(v: nat) -> nat {
    if v == 1 {
        1nat
    } else if v == 2 {
        14474011154664524427946373126085988481681528240970780357977338382174983815169nat
    } else if v == 3 {
        19298681539552699237261830834781317975575370987961040477303117842899978420225nat
    } else if v == 4 {
        21711016731996786641919559689128982722522292361456170536966007573262475722753nat
    } else if v == 5 {
        11579208923731619542357098500868790785345222592776624286381870705739987052135nat
    } else if v == 6 {
        24123351924440874046577288543476647469469213734951300596628897303624973025281nat
    } else if v == 7 {
        16541727033902313631938712144098272550493175132538034694831243865342838645907nat
    } else {
        0nat
    }
}

/// The small positive integers are units of the field.
pub proof fn lemma_small_inverse(v: nat)
    requires
        1 <= v <= 7,
    ensures
        (small_inverse(v) * v) % modulus() == 1,
{
}

/// A product with a nonzero factor between `-7` and `7` vanishes in the field
/// only with its other factor.
pub proof fn lemma_small_unit_cancel(v: int, z: int)
    requires
        1 <= v <= 7 || -7 <= v <= -1,
        (v * z) % (modulus() as int) == 0,
    ensures
        z % (modulus() as int) == 0,
{
    let p = modulus() as int;
    let a: int = if v < 0 { -v } else { v };
    lemma_small_inverse(a as nat);
    let u = small_inverse(a as nat) as int;
    if v < 0 {
        lemma_fundamental_div_mod(v * z, p);
        let q = (v * z) / p;
        assert(a * z == (-q) * p) by (nonlinear_arith) requires a == -v, v * z == p * q + 0;
        lemma_mod_multiples_basic(-q, p);
    }
    assert((a * z) % p == 0);
    lemma_mul_mod_noop_right(u, a * z, p);
    assert(u * 0 == 0);
    assert(u * (a * z) == (u * a) * z) by (nonlinear_arith);
    lemma_mul_mod_noop_left(u * a, z, p);
    assert(1 * z == z);
}

} // verus!
