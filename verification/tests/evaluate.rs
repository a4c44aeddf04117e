use vm_circuit::base_builder::BaseConstraintBuilder;
use vm_circuit::builder::ConstraintBuilder;
use vm_circuit::call_stack::CallContext;
use vm_circuit::executions::base::BaseConstraintGadget;
use vm_circuit::executions::pack::Pack;
use vm_circuit::expr::{Cell, Expression};
use vm_circuit::field::Fe;
use vm_circuit::instance::ValueItem;
use vm_circuit::lookup_table::constant_table::ConstantTableRow;
use vm_circuit::lookup_table::pi_table::PublicInputsLookupTable;
use vm_circuit::math_gadgets::is_zero::IsZeroGadget;
use vm_circuit::math_gadgets::lt::LtGadget;
use vm_circuit::shuffle::{CallStackPop, CallStackPush, Shuffle};
use vm_circuit::executions::native_poseidon_hash::NativePoseidonHash;
use vm_circuit::utils::{evaluate_expression, transpose_val_ret, value, StoredExpression};

fn repr(x: u128) -> [u8; 32] {
    let mut r = [0u8; 32];
    r[..16].copy_from_slice(&x.to_le_bytes());
    r
}

fn zero_table(columns: usize, rows: usize) -> Vec<Vec<Fe>> {
    (0..columns).map(|_| vec![Fe::zero(); rows]).collect()
}

#[test]
fn evaluate_expression_in_the_field() {
    let mut table = zero_table(2, 3);
    table[0][1] = Fe::from_u64(6);
    table[1][2] = Fe::from_u64(7);
    let a = Cell { column: 0, rotation: 0 };
    let b = Cell { column: 1, rotation: 1 };
    // a * b + 2^3 - 1 at row 1: 6 * 7 + 8 - 1 = 49
    let e = Expression::sub(
        Expression::add(Expression::mul(a.expr(), b.expr()), Expression::pow_of_two(3)),
        Expression::constant(1),
    );
    let v = evaluate_expression(&e, &table, 1).unwrap();
    assert_eq!(v.to_repr(), repr(49));
    // b is read one row further: outside the table at row 2
    assert!(evaluate_expression(&e, &table, 2).is_none());
    // -1 is the field order minus one
    let minus_one = evaluate_expression(&Expression::neg(Expression::constant(1)), &table, 0).unwrap();
    let back = evaluate_expression(
        &Expression::add(Expression::neg(Expression::constant(1)), Expression::constant(1)),
        &table,
        0,
    )
    .unwrap();
    assert_ne!(minus_one.to_repr(), repr(0));
    assert_eq!(back.to_repr(), repr(0));
    assert!(evaluate_expression(&Expression::pow_of_two(300), &table, 0).is_none());
}

#[test]
fn lt_witness_satisfies_its_constraints() {
    for (lhs, rhs) in [(3u64, 5u64), (5, 3), (7, 7), (0, 65535)] {
        let mut cb = ConstraintBuilder::new();
        let g = LtGadget::<2>::construct(&mut cb, Expression::constant(lhs as u128), Expression::constant(rhs as u128));
        let (lt, diff) = g.assign(&Fe::from_u64(lhs), &Fe::from_u64(rhs));
        let mut table = zero_table(cb.next_column, 1);
        table[g.lt.column][0] = lt;
        for (i, c) in g.diff.iter().enumerate() {
            table[c.column][0] = Fe::from_u64(diff[i] as u64);
        }
        for c in cb.constraints.iter() {
            let v = evaluate_expression(&c.poly, &table, 0).unwrap();
            assert_eq!(v.to_repr(), [0u8; 32], "{} on {} < {}", c.name, lhs, rhs);
        }
    }
}

#[test]
fn is_zero_witness_satisfies_its_polynomials() {
    for x in [0u64, 1, 2, 1000] {
        let mut cb = ConstraintBuilder::new();
        let g = IsZeroGadget::construct(&mut cb, Expression::constant(x as u128));
        let (inv, flag) = g.assign(&Fe::from_u64(x));
        let mut table = zero_table(cb.next_column, 1);
        table[g.inverse.column][0] = inv;
        for (_, p) in g.configure().iter() {
            assert_eq!(evaluate_expression(p, &table, 0).unwrap().to_repr(), [0u8; 32]);
        }
        let r = evaluate_expression(&g.expr(), &table, 0).unwrap();
        assert_eq!(r.to_repr(), flag.to_repr());
        assert_eq!(r.to_repr(), repr(if x == 0 { 1 } else { 0 }));
    }
}

#[test]
fn value_of_bytes() {
    assert_eq!(value(&[0x34, 0x12]).to_repr(), repr(0x1234));
    assert_eq!(value(&[]).to_repr(), repr(0));
    let bytes = [0xffu8; 31];
    let mut expected = [0xffu8; 32];
    expected[31] = 0;
    assert_eq!(value(&bytes).to_repr(), expected);
}

#[test]
fn transpose_of_known_and_unknown_values() {
    assert_eq!(transpose_val_ret::<u8, ()>(None), Ok(None));
    assert_eq!(transpose_val_ret::<u8, ()>(Some(Ok(3))), Ok(Some(3)));
    assert_eq!(transpose_val_ret::<u8, &str>(Some(Err("e"))), Err("e"));
}

#[test]
fn shuffle_sides_and_conditions() {
    let push = CallStackPush(CallContext::<Expression>::default());
    let ctx = CallContext {
        index: Expression::constant(1),
        caller_module_index: Expression::constant(2),
        caller_function_index: Expression::constant(3),
        caller_pc: Expression::constant(4),
        version: Expression::constant(5),
    };
    let s = Shuffle::CallStack(push, CallStackPop(ctx)).conditional(Expression::constant(2));
    let table = zero_table(1, 1);
    let ins: Vec<[u8; 32]> =
        s.input_exprs().iter().map(|e| evaluate_expression(e, &table, 0).unwrap().to_repr()).collect();
    assert_eq!(ins, vec![repr(0); 5]);
    let outs: Vec<[u8; 32]> =
        s.shuffled_exprs().iter().map(|e| evaluate_expression(e, &table, 0).unwrap().to_repr()).collect();
    assert_eq!(outs, vec![repr(2), repr(4), repr(6), repr(8), repr(10)]);
}

#[test]
fn public_inputs_table_marks_arguments() {
    let rows = PublicInputsLookupTable.build(3, &vec![2, 0, 7]);
    assert_eq!(rows.len(), 3);
    let got: Vec<(u128, u128)> = rows
        .iter()
        .map(|r| {
            let a = r[0].to_repr();
            let b = r[1].to_repr();
            (a[0] as u128, b[0] as u128)
        })
        .collect();
    assert_eq!(got, vec![(0, 1), (1, 0), (2, 1)]);
    assert!(PublicInputsLookupTable.build(0, &vec![1]).is_empty());
}

#[test]
fn constant_row_fields_follow_the_columns() {
    let item = ValueItem {
        sub_index: Fe::from_u64(3),
        header: Fe::one(),
        limbs: [Fe::from_u64(10), Fe::from_u64(11)],
    };
    let row = ConstantTableRow { module_index: 4, constant_index: 5, value_item: item };
    let f: Vec<[u8; 32]> = row.to_fields().iter().map(|x| x.to_repr()).collect();
    assert_eq!(f, vec![repr(4), repr(5), repr(3), repr(10), repr(11), repr(1)]);
}

#[test]
fn pack_assign_numbers_fields_down() {
    let mut cb = ConstraintBuilder::new();
    let pack = Pack::<false>::configure(&mut cb);
    // a header row, then field at stack 9 (two limbs) and field at stack 8 (one limb)
    let pops = vec![9u64, 9, 8];
    let subs = vec![Fe::zero(), Fe::zero(), Fe::from_u64(1), Fe::zero()];
    let counters = vec![Fe::from_u64(4), Fe::from_u64(3), Fe::from_u64(2), Fe::from_u64(1)];
    let rows = pack.assign(&pops, &subs, &counters);
    assert_eq!(rows.len(), 4);
    assert!(rows[0].field_index.is_none());
    let idx: Vec<[u8; 32]> = rows[1..].iter().map(|r| r.field_index.unwrap().to_repr()).collect();
    assert_eq!(idx, vec![repr(2), repr(2), repr(1)]);
    let cnt: Vec<[u8; 32]> = rows[1..].iter().map(|r| r.field_counter.unwrap().to_repr()).collect();
    assert_eq!(cnt, vec![repr(2), repr(1), repr(1)]);
    assert_eq!(rows[3].last_row.1.to_repr(), repr(1));
    assert_eq!(rows[1].last_row.1.to_repr(), repr(0));
    assert_eq!(rows[1].is_zero_stack_pop_sub_index.1.to_repr(), repr(1));
    assert_eq!(rows[2].is_zero_stack_pop_sub_index.1.to_repr(), repr(0));
    // each field's last row is flagged
    let flags: Vec<[u8; 32]> = rows.iter().map(|r| r.last_row_of_field.1.to_repr()).collect();
    assert_eq!(flags, vec![repr(1), repr(0), repr(1), repr(1)]);
}

#[test]
fn base_builder_degrees_and_gates() {
    let a = Cell { column: 0, rotation: 0 };
    let b = Cell { column: 1, rotation: 0 };
    let s = Cell { column: 2, rotation: 0 };
    assert_eq!(Expression::mul(a.expr(), Expression::add(b.expr(), Expression::constant(3))).degree(), 2);
    assert_eq!(Expression::neg(Expression::pow_of_two(9)).degree(), 0);
    let mut cb = BaseConstraintBuilder::new(3);
    cb.require_boolean("a is a bit", a.expr());
    cb.condition(b.expr(), vec![("a == 1 when b", Expression::sub(a.expr(), Expression::constant(1)))]);
    cb.require_in_set("b in {0, 1}", b.expr(), vec![Expression::constant(0), Expression::constant(1)]);
    assert_eq!(cb.constraints.len(), 3);
    assert!(cb.condition.is_none());
    let gate = cb.gate(s.expr());
    assert_eq!(gate.len(), 3);
    assert_eq!(gate[1].0, "a == 1 when b");
    assert!(gate.iter().all(|(_, p)| p.degree() <= 3));
    // every selected polynomial vanishes when all three cells hold one
    let mut table = zero_table(3, 1);
    for c in 0..3 {
        table[c][0] = Fe::one();
    }
    for (_, p) in gate.iter() {
        assert_eq!(evaluate_expression(p, &table, 0).unwrap().to_repr(), [0u8; 32]);
    }
    // a = 0 under b = 1 breaks the second
    table[0][0] = Fe::zero();
    assert_ne!(evaluate_expression(&gate[1].1, &table, 0).unwrap().to_repr(), [0u8; 32]);
}

#[test]
fn stored_expression_assigns_its_value() {
    let mut table = zero_table(3, 2);
    table[0][1] = Fe::from_u64(5);
    table[1][1] = Fe::from_u64(4);
    let cell = Cell { column: 2, rotation: 0 };
    let stored = StoredExpression {
        name: String::from("sum"),
        cell,
        expr: Expression::add(Cell { column: 0, rotation: 0 }.expr(), Cell { column: 1, rotation: 0 }.expr()),
        expr_id: String::from("a+b"),
    };
    let (c, v) = stored.assign(&table, 1).unwrap();
    assert_eq!(c, cell);
    assert_eq!(v.to_repr(), repr(9));
    assert!(stored.assign(&table, 2).is_none());
}

#[test]
fn native_poseidon_hash_adds_nothing() {
    let mut cb = ConstraintBuilder::new();
    let first = cb.next_column;
    let _ = NativePoseidonHash::configure(&mut cb);
    assert_eq!(cb.next_column, first);
    assert_eq!(cb.constraints.len(), 0);
    assert_eq!(cb.lookups.len(), 0);
    assert_eq!(cb.requirements.len(), 0);
}

#[test]
fn lt_assign_value_needs_both_sides() {
    let mut cb = ConstraintBuilder::new();
    let g = LtGadget::<2>::construct(&mut cb, Expression::constant(3), Expression::constant(5));
    let (lt, diff) = g.assign_value(Some(Fe::from_u64(3)), Some(Fe::from_u64(5))).unwrap();
    assert_eq!(lt.to_repr(), repr(1));
    // 3 - 5 + 2^16 = 65534
    assert_eq!(diff[0], 0xfe);
    assert_eq!(diff[1], 0xff);
    assert!(g.assign_value(None, Some(Fe::from_u64(5))).is_none());
    assert!(g.assign_value(Some(Fe::from_u64(3)), None).is_none());
}

fn base_row(clk: u64, spv: u64, lrv: u64) -> Vec<bool> {
    let mut cb = ConstraintBuilder::new();
    let base = BaseConstraintGadget::configure(&mut cb);
    assert_eq!(cb.constraints.len(), 5);
    let s = cb.curr;
    let mut table = zero_table(cb.next_column, 1);
    table[s.clk.column][0] = Fe::from_u64(clk);
    table[s.stack_pop_version.column][0] = Fe::from_u64(spv);
    table[s.local_read_version.column][0] = Fe::from_u64(lrv);
    let w = base.assign(&table[s.clk.column][0], &table[s.stack_pop_version.column][0], &table[s.local_read_version.column][0]);
    for i in 0..4 {
        table[base.stack_pop_version_range_check.parts[i].column][0] = Fe::from_u64(w.stack_pop_version_parts[i] as u64);
        table[base.local_read_version_range_check.parts[i].column][0] = Fe::from_u64(w.local_read_version_parts[i] as u64);
    }
    table[base.stack_pop_version_gap.inverse.column][0] = w.stack_pop_version_gap.0;
    table[base.local_read_version_gap.inverse.column][0] = w.local_read_version_gap.0;
    cb.constraints[1..]
        .iter()
        .map(|c| evaluate_expression(&c.poly, &table, 0).unwrap().to_repr() == repr(0))
        .collect()
}

#[test]
fn base_versions_below_the_clock() {
    // gaps 7 and 1: all four constraints hold
    assert_eq!(base_row(10, 3, 9), vec![true, true, true, true]);
    // the largest gap that fits four bytes
    assert_eq!(base_row(0xffff_ffff, 0, 0), vec![true, true, true, true]);
    // a version equal to the clock fails the nonzero constraint
    assert_eq!(base_row(10, 10, 9), vec![true, true, false, true]);
    // a gap of 2^32 does not fit four bytes
    assert_eq!(base_row(1 << 32, 0, 1), vec![false, true, true, true]);
    // a version above the clock wraps around the field and fails the range check
    assert_eq!(base_row(10, 3, 11), vec![true, false, true, true]);
}
