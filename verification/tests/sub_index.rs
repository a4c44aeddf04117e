use vm_circuit::builder::ConstraintBuilder;
use vm_circuit::executions::ExtendedSubIndex as LeveledSubIndex;
use vm_circuit::expr::Expression;
use vm_circuit::field::Fe;
use vm_circuit::utils::evaluate_expression;
use vm_circuit::sub_index::{
    sub_index_limbs, ExtendedSubIndex, Membership, SubIndexDepth, SubIndexReverse, DEPTH_POW_OF_ONE_LEVEL,
};

fn repr(x: u128) -> [u8; 32] {
    let mut r = [0u8; 32];
    r[..16].copy_from_slice(&x.to_le_bytes());
    r
}

#[test]
fn sub_index_limbs_lowest_first() {
    assert_eq!(sub_index_limbs(0x20003, 4), vec![3, 2, 0, 0]);
    assert_eq!(sub_index_limbs(0x0003_0002_0000_0000, 4), vec![0, 0, 2, 3]);
    assert_eq!(sub_index_limbs(u128::MAX, 8), vec![0xffff; 8]);
    assert!(sub_index_limbs(7, 0).is_empty());
    assert_eq!(DEPTH_POW_OF_ONE_LEVEL, 65536);
}

#[test]
fn extended_sub_index_marks_the_last_nonzero_limb() {
    let mut cb = ConstraintBuilder::new();
    let g = ExtendedSubIndex::<8>::construct(&mut cb, Expression::constant(0));
    // constraints: 8 booleans, 2, 8 and 7 polynomials
    assert_eq!(cb.constraints.len(), 8 + 2 + 8 + 7);
    assert_eq!(cb.lookups.len(), 32);
    let w = g.assign(&Fe::from_u128(0x20003));
    assert_eq!(w.bytes, repr(0x20003));
    let ones: Vec<bool> = w.mask.iter().map(|m| m.to_repr() == repr(1)).collect();
    assert_eq!(ones, vec![false, true, false, false, false, false, false, false]);
    // the inverse of limb 1 (value 2) times 2 is 1; the zero sub index has none
    let w0 = g.assign(&Fe::zero());
    assert!(w0.mask.iter().all(|m| m.to_repr() == [0u8; 32]));
    assert_eq!(w0.reverse_limb.to_repr(), [0u8; 32]);
}

#[test]
fn sub_index_reverse_assigns_limbs() {
    let mut cb = ConstraintBuilder::new();
    let g = SubIndexReverse::<8>::construct(&mut cb, Expression::constant(0));
    assert_eq!(cb.constraints.len(), 1);
    assert_eq!(cb.lookups.len(), 8);
    let limbs = g.assign(0x20003);
    assert_eq!(limbs.len(), 8);
    assert_eq!(limbs[0].to_repr(), repr(3));
    assert_eq!(limbs[1].to_repr(), repr(2));
    assert!(limbs[2..].iter().all(|l| l.to_repr() == [0u8; 32]));
}

#[test]
fn sub_index_depth_constraints() {
    let mut cb = ConstraintBuilder::new();
    let _g = SubIndexDepth::<8>::construct(&mut cb, Expression::constant(0));
    // 8 booleans, the composition and two polynomials per limb
    assert_eq!(cb.constraints.len(), 8 + 1 + 16);
    assert_eq!(cb.lookups.len(), 8);
}

#[test]
fn membership_assign_of_a_field_below_its_header() {
    let mut cb = ConstraintBuilder::new();
    let g = Membership::<8>::construct(&mut cb);
    assert_eq!(cb.constraints.len(), 8);
    assert_eq!(cb.lookups.len(), 64);
    g.configure(&mut cb, Expression::constant(0), Expression::constant(0));
    assert_eq!(cb.constraints.len(), 8 + 2 + 24 + 1);
    // header [3], member [3, 1]
    let w = g.assign(3, 0x10003);
    assert_eq!(w.header_bytes, repr(3));
    assert_eq!(w.member_bytes, repr(0x10003));
    assert_eq!(w.mask[0].to_repr(), repr(1));
    assert!(w.mask[1..].iter().all(|m| m.to_repr() == [0u8; 32]));
    assert!(w.reverse_header_limbs[1..].iter().all(|m| m.to_repr() == [0u8; 32]));
    assert_ne!(w.reverse_header_member_diff.to_repr(), [0u8; 32]);
    // the same sub index has no inverse of the difference
    let same = g.assign(5, 5);
    assert_eq!(same.reverse_header_member_diff.to_repr(), [0u8; 32]);
}

#[test]
fn sub_index_reverse_reads_limbs_backwards() {
    let mut cb = ConstraintBuilder::new();
    let g = SubIndexReverse::<4>::construct(&mut cb, Expression::constant(0x20003));
    let limbs = g.assign(0x20003);
    let mut table: Vec<Vec<Fe>> = (0..cb.next_column).map(|_| vec![Fe::zero()]).collect();
    for (i, c) in g.limbs.iter().enumerate() {
        table[c.column][0] = limbs[i];
    }
    // the composition constraint holds on the limbs
    let c = evaluate_expression(&cb.constraints[0].poly, &table, 0).unwrap();
    assert_eq!(c.to_repr(), [0u8; 32]);
    // [3, 2, 0, 0] reversed is [0, 0, 2, 3]
    let r = evaluate_expression(&g.expr(), &table, 0).unwrap();
    assert_eq!(r.to_repr(), repr(0x0003_0002_0000_0000));
}

fn fill_extended(g: &ExtendedSubIndex<8>, value: u128, columns: usize) -> Vec<Vec<Fe>> {
    let w = g.assign(&Fe::from_u128(value));
    let mut table: Vec<Vec<Fe>> = (0..columns).map(|_| vec![Fe::zero(); 1]).collect();
    for (cell, byte) in g.bytes.iter().zip(w.bytes.iter()) {
        table[cell.column][0] = Fe::from_u64(*byte as u64);
    }
    for (cell, m) in g.mask.iter().zip(w.mask.iter()) {
        table[cell.column][0] = *m;
    }
    table[g.reverse_limb.column][0] = w.reverse_limb;
    table
}

#[test]
fn parent_undoes_concat() {
    // v = 1 (one level); concat(3) appends a level: 1 + 3 * 2^16
    let mut cb = ConstraintBuilder::new();
    let g = ExtendedSubIndex::<8>::construct(&mut cb, Expression::constant(1));
    let table = fill_extended(&g, 1, cb.next_column);
    let child = evaluate_expression(&g.concat(Expression::constant(3)), &table, 0).unwrap();
    assert_eq!(child.to_repr(), repr(0x30001));
    // the parent of the child is v again
    let mut cb = ConstraintBuilder::new();
    let h = ExtendedSubIndex::<8>::construct(&mut cb, Expression::constant(0x30001));
    let table = fill_extended(&h, 0x30001, cb.next_column);
    let parent = evaluate_expression(&h.get_parent_sub_index(), &table, 0).unwrap();
    assert_eq!(parent.to_repr(), repr(1));
    // at depth zero the parent is zero
    let table = fill_extended(&h, 0, cb.next_column);
    let parent = evaluate_expression(&h.get_parent_sub_index(), &table, 0).unwrap();
    assert_eq!(parent.to_repr(), repr(0));
}

fn all_vanish(cb: &ConstraintBuilder, table: &Vec<Vec<Fe>>) -> bool {
    cb.constraints
        .iter()
        .all(|c| evaluate_expression(&c.poly, table, 0).unwrap().to_repr() == [0u8; 32])
}

#[test]
fn extended_sub_index_constraints_force_the_mask() {
    let mut cb = ConstraintBuilder::new();
    let g = ExtendedSubIndex::<8>::construct(&mut cb, Expression::constant(0x30001));
    // the witness satisfies every constraint
    let table = fill_extended(&g, 0x30001, cb.next_column);
    assert!(all_vanish(&cb, &table));
    // a mask on the first level, below a nonzero one, is refused
    let mut wrong = table.clone();
    wrong[g.mask[1].column][0] = Fe::zero();
    wrong[g.mask[0].column][0] = Fe::one();
    assert!(!all_vanish(&cb, &wrong));
    // no mask at all on a nonzero sub index is refused
    let mut none = table.clone();
    none[g.mask[1].column][0] = Fe::zero();
    assert!(!all_vanish(&cb, &none));
}

#[test]
fn leveled_sub_index_concat_and_parent() {
    let mut cb = ConstraintBuilder::new();
    let g = LeveledSubIndex::<8>::construct(&mut cb, Expression::constant(0x20003));
    assert_eq!(cb.constraints.len(), 8 + 2 + 8 + 7);
    assert_eq!(cb.lookups.len(), 32);
    let w = g.assign(0x20003, 2);
    assert_eq!(w.bytes, repr(0x20003));
    let ones: Vec<bool> = w.mask.iter().map(|m| m.to_repr() == repr(1)).collect();
    assert_eq!(ones, vec![false, true, false, false, false, false, false, false]);
    let mut table: Vec<Vec<Fe>> = (0..cb.next_column).map(|_| vec![Fe::zero(); 1]).collect();
    for (cell, byte) in g.bytes.iter().zip(w.bytes.iter()) {
        table[cell.column][0] = Fe::from_u64(*byte as u64);
    }
    for (cell, m) in g.mask.iter().zip(w.mask.iter()) {
        table[cell.column][0] = *m;
    }
    table[g.reverse_limb.column][0] = w.reverse_limb;
    assert!(cb
        .constraints
        .iter()
        .all(|c| evaluate_expression(&c.poly, &table, 0).unwrap().to_repr() == [0u8; 32]));
    // [3, 2] concat [4] is [3, 2, 4]; the parent of [3, 2] is [3]
    let child = evaluate_expression(&g.concat_sub_index(Expression::constant(4)), &table, 0).unwrap();
    assert_eq!(child.to_repr(), repr(0x4_0002_0003));
    let parent = evaluate_expression(&g.get_parent_sub_index(), &table, 0).unwrap();
    assert_eq!(parent.to_repr(), repr(3));
}
