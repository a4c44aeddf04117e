use vm_circuit::builder::ConstraintBuilder;
use vm_circuit::executions::add_sub::AddSub;
use vm_circuit::executions::cast::Cast;
use vm_circuit::executions::equality::Equality;
use vm_circuit::executions::nop::{sort_fe, Nop};
use vm_circuit::executions::ret::{Ret, RetCaller};
use vm_circuit::executions::start::{StartStage1, StartStage2};
use vm_circuit::executions::unpack::{UnpackStage1, UnpackStage2};
use vm_circuit::field::Fe;
use vm_circuit::opcode::Opcode;
use vm_circuit::step_witness::{LocalOp, StackOp};

fn repr(x: u128) -> [u8; 32] {
    let mut r = [0u8; 32];
    r[..16].copy_from_slice(&x.to_le_bytes());
    r
}

fn is(x: &Fe, v: u128) -> bool {
    x.to_repr() == repr(v)
}

fn local(frame_index: u64, index: u64, sub_index: u128) -> LocalOp {
    LocalOp {
        frame_index,
        index,
        sub_index,
        read_value: [0, 0],
        read_value_header: false,
        read_value_invalid: false,
        read_version: 0,
        write_value: [0, 0],
        write_value_header: false,
        write_value_invalid: false,
        write_version: 1,
    }
}

fn pop(sub_index: u128, value: u128) -> StackOp {
    StackOp { index: 0, sub_index, value_header: false, version: 0, value: [value, 0] }
}

#[test]
fn start_stages_configure() {
    let mut cb = ConstraintBuilder::new();
    let first = cb.next_column;
    let s1 = StartStage1::configure(&mut cb);
    assert_eq!(s1.num_arg.column, first);
    assert_eq!(cb.next_column, first + 2);
    assert_eq!(cb.constraints.len(), 3);
    assert_eq!(cb.lookups.len(), 1);
    assert_eq!(cb.requirements.len(), 10);
    let mut cb = ConstraintBuilder::new();
    let _s2 = StartStage2::configure(&mut cb);
    assert_eq!(cb.constraints.len(), 6);
    assert_eq!(cb.lookups.len(), 0);
    assert_eq!(cb.requirements.len(), 12);
}

#[test]
fn start_stages_assign() {
    let mut cb = ConstraintBuilder::new();
    let s1 = StartStage1::configure(&mut cb);
    let (n, (_, z)) = s1.assign(0);
    assert!(is(&n, 0) && is(&z, 1));
    let (n, (inv, z)) = s1.assign(3);
    assert!(is(&n, 3) && is(&z, 0));
    assert!(!is(&inv, 0));
    let s2 = StartStage2::configure(&mut cb);
    let rows = s2.assign(Fe::from_u64(2), &vec![1, 0]);
    assert_eq!(rows.len(), 2);
    assert!(is(&rows[0].0, 2) && is(&rows[1].0, 2));
    assert!(is(&(rows[0].1).1, 0));
    assert!(is(&(rows[1].1).1, 1));
}

#[test]
fn unpack_stages_configure() {
    let mut cb = ConstraintBuilder::new();
    let _ = UnpackStage1::<false>::configure(&mut cb);
    assert_eq!(cb.constraints.len(), 6);
    assert_eq!(cb.requirements.len(), 8);
    let mut cb = ConstraintBuilder::new();
    let _ = UnpackStage1::<true>::configure(&mut cb);
    assert_eq!(cb.constraints.len(), 6);
    assert_eq!(cb.requirements.len(), 10);
    let mut cb = ConstraintBuilder::new();
    let first = cb.next_column;
    let s2 = UnpackStage2::<false>::configure(&mut cb);
    assert_eq!(cb.next_column, first + 35);
    assert_eq!(s2.membership_gadget.header_limbs.len(), 8);
    assert_eq!(cb.constraints.len(), 8 + 3 + 27 + 6);
    assert_eq!(cb.lookups.len(), 16);
    assert_eq!(cb.requirements.len(), 13);
}

#[test]
fn equality_configure_counts() {
    let mut cb = ConstraintBuilder::new();
    let first = cb.next_column;
    let e = Equality::<true, true>::configure(&mut cb);
    assert_eq!(e.rlc1.column, first);
    assert_eq!(cb.next_column, first + 29);
    assert_eq!(cb.constraints.len(), 13);
    assert_eq!(cb.lookups.len(), 24);
    assert_eq!(cb.requirements.len(), 7);
    let mut cb = ConstraintBuilder::new();
    let _ = Equality::<false, false>::configure(&mut cb);
    assert_eq!(cb.constraints.len(), 21);
    assert_eq!(cb.requirements.len(), 6);
}

#[test]
fn equality_assign_folds_the_popped_limbs() {
    let mut cb = ConstraintBuilder::new();
    let stage1 = Equality::<true, true>::configure(&mut cb);
    let r = Fe::from_u64(10);
    let g = Fe::from_u64(100);
    let ops = vec![pop(0, 5), pop(1, 7)];
    let rows = stage1.assign(&ops, &r, &g, &Fe::zero());
    assert_eq!(rows.len(), 2);
    // pop rlc: sub_index + 10 * (header + 10 * (v0 + 10 * v1))
    assert!(is(&rows[0].rlc1, 500));
    assert!(is(&rows[1].rlc1, 701 + 100 * 500));
    assert!(is(&rows[0].rlc2, 0));
    assert!(is(&rows[0].rlc1_rlc2_eq.1, 0));
    assert!(is(&rows[0].stack_pop_sub_index_reverse, 0));
    // sub index 1 read backwards over eight limbs is 2^112
    assert!(is(&rows[1].stack_pop_sub_index_reverse, 1u128 << 112));
    assert!(is(&rows[0].sub_index_lt.0, 0));
    assert!(is(&rows[1].sub_index_lt.0, 1));
    assert!(is(&rows[1].sub_index_limbs[0], 1));

    let mut cb = ConstraintBuilder::new();
    let stage2 = Equality::<false, true>::configure(&mut cb);
    let rows = stage2.assign(&vec![pop(0, 5)], &r, &g, &Fe::from_u64(500));
    assert!(is(&rows[0].rlc1, 500) && is(&rows[0].rlc2, 500));
    assert!(is(&rows[0].rlc1_rlc2_eq.1, 1));
    let rows = stage2.assign(&vec![pop(0, 6)], &r, &g, &Fe::from_u64(500));
    assert!(is(&rows[0].rlc1_rlc2_eq.1, 0));
}

#[test]
fn ret_configure_and_assign() {
    let mut cb = ConstraintBuilder::new();
    let ret = Ret::configure(&mut cb);
    assert_eq!(cb.constraints.len(), 12);
    assert_eq!(cb.requirements.len(), 5);
    let caller = RetCaller { caller_frame_index: 0, caller_module_index: 4, caller_function_index: 2, caller_pc: 9 };
    let w = ret.assign(Some(caller), 7);
    assert!(is(&w.call_context[0], 0) && is(&w.call_context[1], 4));
    assert!(is(&w.call_context[2], 2) && is(&w.call_context[3], 9) && is(&w.call_context[4], 7));
    assert!(is(&w.call_context_version, 7));
    assert!(is(&w.is_zero_frame_index.1, 0));
    let top = ret.assign(None, 3);
    assert!(is(&top.call_context[0], 0) && is(&top.call_context[4], 3));
    assert!(is(&top.is_zero_frame_index.1, 1));
}

#[test]
fn nop_orders_locals_by_key() {
    let mut cb = ConstraintBuilder::new();
    let nop = Nop::configure(&mut cb);
    assert_eq!(cb.constraints.len(), 10);
    assert_eq!(cb.lookups.len(), 32);
    assert_eq!(cb.requirements.len(), 1);
    let r = Fe::from_u64(10);
    // keys: frame + 10 * (index + 10 * sub_index)
    let ops = vec![local(1, 2, 0), local(0, 5, 0), local(0, 1, 0), local(1, 2, 0)];
    let sorted = nop.assign_common(&ops, &r);
    let keys: Vec<(u64, u64)> = sorted.iter().map(|op| (op.frame_index, op.index)).collect();
    assert_eq!(keys, vec![(0, 1), (1, 2), (1, 2), (0, 5)]);
    let rows = nop.assign(&sorted[..3].to_vec(), &r);
    let lows: Vec<u128> = rows.iter().map(|row| row.rlc_lo).collect();
    assert_eq!(lows, vec![10, 21, 21]);
    assert!(rows.iter().all(|row| row.rlc_hi == 0));
    // 0 < 10 and 10 < 21, but 21 is not below 21
    let lt: Vec<bool> = rows
        .iter()
        .map(|row| is(&row.lt.0, 1) || (is(&row.lt.1, 1) && is(&row.lt.2, 1)))
        .collect();
    assert_eq!(lt, vec![true, true, false]);
}

#[test]
fn sort_fe_orders_values() {
    let v = vec![Fe::from_u64(9), Fe::from_u64(1), Fe::from_u64(5), Fe::from_u64(1)];
    let s = sort_fe(&v);
    let got: Vec<[u8; 32]> = s.iter().map(|x| x.to_repr()).collect();
    assert_eq!(got, vec![repr(1), repr(1), repr(5), repr(9)]);
    assert!(sort_fe(&vec![]).is_empty());
}

#[test]
fn add_sub_assign_overflow_flags() {
    let mut cb = ConstraintBuilder::new();
    let g = AddSub::configure(&mut cb);
    let add = Opcode::Add.index() as u16;
    let sub = Opcode::Sub.index() as u16;
    // u8: 200 + 100 = 300 overflows one byte
    let w = g.assign(add, 1, 200, 0, 100, 0, 300, 0);
    assert!(is(&w.is_add.1, 1));
    assert!(is(&w.carry_lo, 0) && is(&w.carry_hi, 0));
    assert!(is(&w.overflow, 1));
    assert_eq!(&w.range_lo[..2], &[0x2c, 0x01]);
    assert!(w.range_hi.is_none());
    // u8: 5 + 6 = 11
    let w = g.assign(add, 1, 5, 0, 6, 0, 11, 0);
    assert!(is(&w.overflow, 0));
    assert!(is(&w.is_width[0].1, 1) && is(&w.is_width[1].1, 0));
    // u64: 5 - 3 = 2, checked as 2 + 3 = 5
    let w = g.assign(sub, 8, 5, 0, 3, 0, 2, 0);
    assert!(is(&w.is_add.1, 0));
    assert!(is(&w.overflow, 0));
    assert!(is(&w.is_width[3].1, 1));
    // u256: max + 1 wraps to 0 with both carries
    let w = g.assign(add, 32, u128::MAX, u128::MAX, 1, 0, 0, 0);
    assert!(is(&w.carry_lo, 1) && is(&w.carry_hi, 1));
    assert!(is(&w.overflow, 1));
    assert!(w.range_hi.is_some());
}

#[test]
fn cast_assign_selects_the_target() {
    let mut cb = ConstraintBuilder::new();
    let g = Cast::configure(&mut cb);
    let w = g.assign(Opcode::CastU8.index() as u16, 0x1ff, 0);
    assert_eq!(w.casts.len(), 6);
    assert!(is(&w.casts[0].1, 1));
    assert!(w.casts[1..].iter().all(|c| is(&c.1, 0)));
    assert_eq!(&w.range_lo[..3], &[0xff, 0x01, 0]);
    assert!(is(&w.hi.1, 1));
    let w = g.assign(Opcode::CastU256.index() as u16, 1, 2);
    assert!(is(&w.casts[5].1, 1));
    assert!(is(&w.hi.1, 0));
}

#[test]
fn nop_keeps_arrival_order_of_equal_keys() {
    let mut cb = ConstraintBuilder::new();
    let nop = Nop::configure(&mut cb);
    let r = Fe::from_u64(10);
    let mut first = local(1, 2, 0);
    first.read_version = 3;
    let mut second = local(1, 2, 0);
    second.read_version = 5;
    let ops = vec![first, local(0, 5, 0), second, local(0, 1, 0)];
    let sorted = nop.assign_common(&ops, &r);
    let got: Vec<(u64, u64, u64)> = sorted.iter().map(|op| (op.frame_index, op.index, op.read_version)).collect();
    assert_eq!(got, vec![(0, 1, 0), (1, 2, 3), (1, 2, 5), (0, 5, 0)]);
}
