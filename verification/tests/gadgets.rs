use vm_circuit::builder::ConstraintBuilder;
use vm_circuit::expr::Expression;
use vm_circuit::field::{fe_rlc, Fe};
use vm_circuit::math_gadgets::comparison::ComparisonGadget;
use vm_circuit::math_gadgets::is_zero::IsZeroGadget;
use vm_circuit::math_gadgets::lt::{LtGadget, LtInteger};
use vm_circuit::math_gadgets::range_check::IntegerRangeCheck;
use vm_circuit::u256::U256;

fn repr(x: u128) -> [u8; 32] {
    let mut r = [0u8; 32];
    r[..16].copy_from_slice(&x.to_le_bytes());
    r
}

fn same(a: &Fe, b: &Fe) -> bool {
    a.to_repr() == b.to_repr()
}

#[test]
fn fe_from_u128_is_little_endian() {
    assert_eq!(Fe::from_u128(0x0102).to_repr(), repr(0x0102));
    assert_eq!(Fe::from_u128(u128::MAX).to_repr(), repr(u128::MAX));
    assert_eq!(Fe::zero().to_repr(), [0u8; 32]);
    assert_eq!(Fe::one().to_repr(), repr(1));
    assert_eq!(Fe::from_bool(true).to_repr(), repr(1));
    assert_eq!(Fe::from_u64(77).to_repr(), repr(77));
}

#[test]
fn fe_pow_of_two_above_128_bits() {
    let mut expected = [0u8; 32];
    expected[16] = 4; // 2^130
    assert_eq!(Fe::pow_of_two(130).to_repr(), expected);
    assert_eq!(Fe::pow_of_two(0).to_repr(), repr(1));
    assert_eq!(Fe::pow_of_two(64).to_repr(), repr(1u128 << 64));
}

#[test]
fn fe_rlc_combines_from_the_last_value() {
    // 1 + 10 * (2 + 10 * 3) = 321
    let vals = vec![Fe::from_u64(1), Fe::from_u64(2), Fe::from_u64(3)];
    let r = fe_rlc(&vals, &Fe::from_u64(10));
    assert_eq!(r.to_repr(), repr(321));
    let single = fe_rlc(&vec![Fe::from_u64(9)], &Fe::from_u64(1000));
    assert_eq!(single.to_repr(), repr(9));
}

#[test]
fn u256_from_le_bytes_reads_both_halves() {
    let mut bytes = [0u8; 32];
    bytes[0] = 0x34;
    bytes[1] = 0x12;
    bytes[16] = 0x01;
    bytes[31] = 0x80;
    let x = U256::from_le_bytes(&bytes);
    assert_eq!(x.lo, 0x1234);
    assert_eq!(x.hi, 1 | (0x80u128 << 120));
}

#[test]
fn u256_wrapping_arithmetic() {
    let max = U256::new(u128::MAX, u128::MAX);
    let sum = U256::wrapping_add(max, U256::one());
    assert_eq!((sum.lo, sum.hi), (0, 0));
    let diff = U256::wrapping_sub(U256::zero(), U256::one());
    assert_eq!((diff.lo, diff.hi), (u128::MAX, u128::MAX));
    let carry = U256::wrapping_add(U256::new(u128::MAX, 0), U256::one());
    assert_eq!((carry.lo, carry.hi), (0, 1));
}

#[test]
fn is_zero_assign_gives_inverse_and_flag() {
    let mut cb = ConstraintBuilder::new();
    let g = IsZeroGadget::construct(&mut cb, Expression::constant(0));
    let (inv, flag) = g.assign(&Fe::zero());
    assert!(same(&inv, &Fe::zero()));
    assert!(same(&flag, &Fe::one()));
    let (inv, flag) = g.assign(&Fe::one());
    assert!(same(&inv, &Fe::one()));
    assert!(same(&flag, &Fe::zero()));
    let (_, flag) = g.assign(&Fe::from_u64(12345));
    assert!(same(&flag, &Fe::zero()));
    assert_eq!(g.configure().len(), 2);
}

#[test]
fn lt_assign_exact_diff_bytes() {
    let mut cb = ConstraintBuilder::new();
    let g = LtGadget::<2>::construct(&mut cb, Expression::constant(0), Expression::constant(0));
    assert_eq!(g.diff.len(), 2);
    assert_eq!(cb.constraints.len(), 2);
    assert_eq!(cb.lookups.len(), 2);
    // 3 < 5: lt = 1 and diff = 3 - 5 + 2^16 = 0xfffe
    let (lt, diff) = g.assign(&Fe::from_u64(3), &Fe::from_u64(5));
    assert!(same(&lt, &Fe::one()));
    assert_eq!(&diff[..2], &[0xfe, 0xff]);
    assert!(diff[2..].iter().all(|&b| b == 0));
    // 7 >= 7: lt = 0 and diff = 0
    let (lt, diff) = g.assign(&Fe::from_u64(7), &Fe::from_u64(7));
    assert!(same(&lt, &Fe::zero()));
    assert!(diff.iter().all(|&b| b == 0));
    // 9 - 4 = 5
    let (lt, diff) = g.assign(&Fe::from_u64(9), &Fe::from_u64(4));
    assert!(same(&lt, &Fe::zero()));
    assert_eq!(diff[0], 5);
}

#[test]
fn comparison_assign_lt_and_eq() {
    let mut cb = ConstraintBuilder::new();
    let g = ComparisonGadget::<4>::construct(&mut cb, Expression::constant(0), Expression::constant(0));
    // the equality test's checks are added with the comparison
    assert_eq!(cb.constraints.len(), 4);
    let (lt, eq, inv) = g.assign(&Fe::from_u64(10), &Fe::from_u64(10));
    assert!(same(&lt, &Fe::zero()) && same(&eq, &Fe::one()) && same(&inv, &Fe::zero()));
    let (lt, eq, inv) = g.assign(&Fe::from_u64(10), &Fe::from_u64(11));
    assert!(same(&lt, &Fe::one()) && same(&eq, &Fe::zero()) && !same(&inv, &Fe::zero()));
    let (lt, eq, _) = g.assign(&Fe::from_u64(12), &Fe::from_u64(11));
    assert!(same(&lt, &Fe::zero()) && same(&eq, &Fe::zero()));
}

#[test]
fn lt_integer_compares_high_then_low() {
    let mut cb = ConstraintBuilder::new();
    let zero = || Expression::constant(0);
    let g = LtInteger::construct(&mut cb, zero(), zero(), zero(), zero());
    assert_eq!(cb.constraints.len(), 6);
    assert_eq!(cb.lookups.len(), 32);
    // equal high halves: decided by the low halves
    let (hi_lt, hi_eq, lo_lt, _) = g.assign(5, 1, 6, 1);
    assert!(same(&hi_lt, &Fe::zero()) && same(&hi_eq, &Fe::one()) && same(&lo_lt, &Fe::one()));
    // a smaller high half wins over a larger low half
    let (hi_lt, hi_eq, _, _) = g.assign(u128::MAX, 0, 0, 1);
    assert!(same(&hi_lt, &Fe::one()) && same(&hi_eq, &Fe::zero()));
    // equal integers are not less
    let (hi_lt, hi_eq, lo_lt, _) = g.assign(9, 9, 9, 9);
    assert!(same(&hi_lt, &Fe::zero()) && same(&hi_eq, &Fe::one()) && same(&lo_lt, &Fe::zero()));
}

#[test]
fn limb_range_check_bytes() {
    let mut cb = ConstraintBuilder::new();
    let g = IntegerRangeCheck::<4>::construct(&mut cb, Expression::constant(0));
    let bytes = g.assign(&Fe::from_u128(0x0a0b0c));
    assert_eq!(bytes.len(), 16);
    assert_eq!(&bytes[..4], &[0x0c, 0x0b, 0x0a, 0]);
}
