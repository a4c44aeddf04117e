use vm_circuit::builder::ConstraintBuilder;
use vm_circuit::executions::vec_len::VecLen;
use vm_circuit::executions::vec_push_back::{VecPushBackStage1, VecPushBackStage2, WordU16};
use vm_circuit::executions::write_ref::{WriteRefStage1, WriteRefStage2, WriteRefStage3};
use vm_circuit::expr::Cell;
use vm_circuit::field::Fe;
use vm_circuit::step_witness::Step;
use vm_circuit::utils::evaluate_expression;

fn repr(x: u128) -> [u8; 32] {
    let mut r = [0u8; 32];
    r[..16].copy_from_slice(&x.to_le_bytes());
    r
}

fn is(x: &Fe, v: u128) -> bool {
    x.to_repr() == repr(v)
}

fn le_value(bytes: &[u8; 32]) -> u128 {
    let mut lo = [0u8; 16];
    lo.copy_from_slice(&bytes[..16]);
    u128::from_le_bytes(lo)
}

fn zero_table(columns: usize, rows: usize) -> Vec<Vec<Fe>> {
    (0..columns).map(|_| vec![Fe::zero(); rows]).collect()
}

#[test]
fn word_u16_splits_into_bytes() {
    assert_eq!(WordU16::assign(0x1234), (0x34, 0x12));
    assert_eq!(WordU16::assign(0), (0, 0));
    assert_eq!(WordU16::assign(65535), (255, 255));
}

#[test]
fn vec_push_back_stage1_configure() {
    let mut cb = ConstraintBuilder::new();
    let first = cb.next_column;
    let s1 = VecPushBackStage1::configure(&mut cb);
    assert_eq!(cb.next_column, first + 46);
    assert_eq!(s1.vector_sub_index.column, first);
    assert_eq!(s1.vector_origin_len.lo.column, first + 42);
    assert_eq!(s1.vector_origin_len.hi.column, first + 43);
    assert_eq!(s1.is_zero_gadget.inverse.column, first + 44);
    assert_eq!(s1.is_ori_len_max_u16.inverse.column, first + 45);
    assert_eq!(cb.constraints.len(), 52);
    assert_eq!(cb.lookups.len(), 34);
    assert_eq!(cb.requirements.len(), 8);
}

#[test]
fn vec_push_back_stage1_assign() {
    let mut cb = ConstraintBuilder::new();
    let s1 = VecPushBackStage1::configure(&mut cb);
    let locals = vec![Fe::from_u64(0), Fe::from_u64(1), Fe::from_u64(0x10001)];
    let rows = s1.assign(&Fe::from_u64(0x10001), &locals, 259);
    assert_eq!(rows.len(), 3);
    for row in &rows {
        assert!(is(&row.vector_sub_index, 0x10001));
    }
    assert_eq!(le_value(&rows[0].extended_local_sub_index_of_next_row.bytes), 1);
    assert_eq!(le_value(&rows[1].extended_local_sub_index_of_next_row.bytes), 0x10001);
    assert_eq!(le_value(&rows[2].extended_local_sub_index_of_next_row.bytes), 0);
    assert_eq!(rows[0].vector_origin_len, (0, 0));
    assert_eq!(rows[2].vector_origin_len, (3, 1));
    assert!(is(&rows[0].is_zero_gadget.1, 0));
    assert!(is(&rows[1].is_zero_gadget.1, 0));
    assert!(is(&rows[2].is_zero_gadget.1, 1));
    assert!(is(&rows[0].is_ori_len_max_u16.1, 1));
    assert!(is(&rows[2].is_ori_len_max_u16.1, 0));
    let full = s1.assign(&Fe::from_u64(0), &vec![Fe::from_u64(0)], 65535);
    assert_eq!(full[0].vector_origin_len, (255, 255));
    assert!(is(&full[0].is_ori_len_max_u16.1, 1));
}

#[test]
fn vec_push_back_length_check_rejects_a_full_vector() {
    // The last row's check that the old length is not 2^16 - 1, evaluated on
    // the witness of each length.
    for (len, holds) in [(259u16, true), (65534, true), (65535, false)] {
        let mut cb = ConstraintBuilder::new();
        let s1 = VecPushBackStage1::configure(&mut cb);
        let rows = s1.assign(&Fe::from_u64(0), &vec![Fe::from_u64(0)], len);
        let row = &rows[0];
        let mut table = zero_table(cb.next_column, 1);
        table[s1.vector_origin_len.lo.column][0] = Fe::from_u64(row.vector_origin_len.0 as u64);
        table[s1.vector_origin_len.hi.column][0] = Fe::from_u64(row.vector_origin_len.1 as u64);
        table[s1.is_ori_len_max_u16.inverse.column][0] = row.is_ori_len_max_u16.0;
        let check = cb.constraints.iter().find(|c| c.name == "vector_origin_len(0) != 2^16-1").unwrap();
        let v = evaluate_expression(&check.poly, &table, 0).unwrap();
        assert_eq!(is(&v, 0), holds);
    }
}

#[test]
fn vec_push_back_stage2_configure_and_assign() {
    let mut cb = ConstraintBuilder::new();
    let first = cb.next_column;
    let s2 = VecPushBackStage2::configure(&mut cb);
    assert_eq!(cb.next_column, first + 44);
    assert_eq!(s2.vector_origin_len.lo.column, first + 42);
    assert_eq!(cb.constraints.len(), 39);
    assert_eq!(cb.lookups.len(), 34);
    assert_eq!(cb.requirements.len(), 9);
    let rows = s2.assign(&Fe::from_u64(0x10001), (3, 1), 2);
    assert_eq!(rows.len(), 2);
    for row in &rows {
        assert!(is(&row.0, 0x10001));
        assert_eq!(le_value(&row.1.bytes), 0x10001);
        assert_eq!(row.2, (3, 1));
    }
}

#[test]
fn write_ref_stages_configure() {
    let mut cb = ConstraintBuilder::new();
    let first = cb.next_column;
    let s1 = WriteRefStage1::configure(&mut cb);
    assert_eq!(cb.next_column, first + 83);
    assert_eq!(s1.header_sub_index.column, first);
    assert_eq!(s1.header_flen_delta.column, first + 1);
    assert_eq!(cb.constraints.len(), 45);
    assert_eq!(cb.lookups.len(), 64);
    assert_eq!(cb.requirements.len(), 11);
    let mut cb = ConstraintBuilder::new();
    let s2 = WriteRefStage2::configure(&mut cb);
    assert_eq!(cb.next_column, first + 44);
    assert_eq!(s2.header_sub_index.column, first);
    assert_eq!(s2.header_flen_delta.column, first + 1);
    assert_eq!(cb.constraints.len(), 34);
    assert_eq!(cb.lookups.len(), 32);
    assert_eq!(cb.requirements.len(), 12);
    let mut cb = ConstraintBuilder::new();
    let s3 = WriteRefStage3::configure(&mut cb);
    assert_eq!(s3.header_sub_index.column, first);
    assert_eq!(cb.constraints.len(), 36);
    assert_eq!(cb.lookups.len(), 32);
    assert_eq!(cb.requirements.len(), 8);
}

#[test]
fn write_ref_stages_assign() {
    let mut cb = ConstraintBuilder::new();
    let s1 = WriteRefStage1::configure(&mut cb);
    let rows = s1.assign(1, &vec![1, 0x10001, 0x20001]);
    assert_eq!(rows.len(), 3);
    for row in &rows {
        assert!(is(&row.header_sub_index, 1));
        assert!(is(&row.header_flen_delta, 3));
        assert_eq!(le_value(&row.membership_gadget.header_bytes), 1);
    }
    assert_eq!(le_value(&rows[1].membership_gadget.member_bytes), 0x10001);
    assert!(is(&rows[0].membership_gadget.reverse_header_member_diff, 0));
    assert!(!is(&rows[1].membership_gadget.reverse_header_member_diff, 0));

    let s2 = WriteRefStage2::configure(&mut cb);
    let rows = s2.assign(&Fe::from_u64(1), &Fe::from_u64(3), 5);
    assert_eq!(rows.len(), 5);
    assert!(is(&rows[0].header_flen_delta, 2));
    assert!(is(&rows[4].is_zero.1, 0));
    let whole = s2.assign(&Fe::from_u64(0), &Fe::from_u64(1), 1);
    assert!(is(&whole[0].is_zero.1, 1));
    assert!(is(&whole[0].header_flen_delta, 0));

    let s3 = WriteRefStage3::configure(&mut cb);
    let rows = s3.assign(&Fe::from_u64(0x20001), &Fe::from_u64(2), &vec![Fe::from_u64(1), Fe::from_u64(0)]);
    assert_eq!(rows.len(), 2);
    assert!(is(&rows[0].header_sub_index, 1));
    assert!(is(&rows[1].header_sub_index, 0));
    assert_eq!(le_value(&rows[0].header_sub_index_ext.bytes), 0x20001);
    assert_eq!(le_value(&rows[1].header_sub_index_ext.bytes), 1);
    assert!(is(&rows[0].header_flen_delta, 2));
    assert!(is(&rows[0].is_zero.1, 0));
    let same = s3.assign(&Fe::from_u64(1), &Fe::from_u64(2), &vec![Fe::from_u64(1)]);
    assert!(is(&same[0].is_zero.1, 1));
}

#[test]
fn execution_state_selector_selects_its_states() {
    let challenge = Cell { column: 0, rotation: 0 };
    let step = Step::new(1, challenge, 8);
    let sel = step.execution_state_selector(&vec![2, 5]);
    let mut table = zero_table(1 + 35 + 5, 1);
    // state 5: odd, in the pair [4, 5]
    table[step.execution_state.target_odd.column][0] = Fe::one();
    table[step.execution_state.target_pairs[2].column][0] = Fe::one();
    assert!(is(&evaluate_expression(&sel, &table, 0).unwrap(), 1));
    // state 3: odd, in the pair [2, 3]
    table[step.execution_state.target_pairs[2].column][0] = Fe::zero();
    table[step.execution_state.target_pairs[1].column][0] = Fe::one();
    assert!(is(&evaluate_expression(&sel, &table, 0).unwrap(), 0));
    // state 2: even, in the pair [2, 3]
    table[step.execution_state.target_odd.column][0] = Fe::zero();
    assert!(is(&evaluate_expression(&sel, &table, 0).unwrap(), 1));
}

#[test]
fn vec_len_configure() {
    let mut cb = ConstraintBuilder::new();
    let first = cb.next_column;
    let lookups = cb.lookups.len();
    let _v = VecLen::configure(&mut cb);
    assert_eq!(cb.next_column, first + 2);
    assert_eq!(cb.constraints.len(), 18);
    assert_eq!(cb.lookups.len(), lookups);
    assert_eq!(cb.requirements.len(), 7);
}
