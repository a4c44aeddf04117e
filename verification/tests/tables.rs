use vm_circuit::builder::ConstraintBuilder;
use vm_circuit::expr::Cell;
use vm_circuit::field::Fe;
use vm_circuit::instance::{public_inputs_to_fields, ValueItem};
use vm_circuit::lookup_table::bitwise_table::{BitwiseLookupTable, Pow2LookupTable};
use vm_circuit::lookup_table::bytecode_table::{bytecode_to_fe, is_supported, Bytecode, BytecodeInfo, BytecodeLookupTable};
use vm_circuit::lookup_table::fixed_table::FixedTableTag;
use vm_circuit::lookup_table::function_table::{function_table_rows, FunctionInfo, FunctionTableRow};
use vm_circuit::lookup_table::utils::{convert_u256_to_fe_pair, get_num_bytes, SignatureToken};
use vm_circuit::opcode::Opcode;
use vm_circuit::selector::DynamicSelectorHalf;
use vm_circuit::step_witness::{MemoryOp, Step, StepWitness};
use vm_circuit::u256::U256;

fn repr(x: u128) -> [u8; 32] {
    let mut r = [0u8; 32];
    r[..16].copy_from_slice(&x.to_le_bytes());
    r
}

fn row_vals(row: &[Fe]) -> Vec<[u8; 32]> {
    row.iter().map(|x| x.to_repr()).collect()
}

#[test]
fn fixed_table_tags_are_numbered_in_order() {
    let tags = FixedTableTag::iter();
    assert_eq!(tags.len(), 14);
    for (i, t) in tags.iter().enumerate() {
        assert_eq!(t.index(), i as u64);
    }
}

#[test]
fn fixed_table_rows() {
    let zero = FixedTableTag::Zero.build();
    assert_eq!(zero.len(), 1);
    assert_eq!(row_vals(&zero[0]), vec![repr(0); 4]);
    let range5 = FixedTableTag::Range5.build();
    assert_eq!(range5.len(), 5);
    assert_eq!(row_vals(&range5[4]), vec![repr(1), repr(4), repr(0), repr(0)]);
    let sign = FixedTableTag::SignByte.build();
    assert_eq!(sign.len(), 256);
    assert_eq!(row_vals(&sign[127]), vec![repr(9), repr(127), repr(0), repr(0)]);
    assert_eq!(row_vals(&sign[128]), vec![repr(9), repr(128), repr(255), repr(0)]);
    let xor = FixedTableTag::BitwiseXor.build();
    // row 0x5a: 5 xor 10 = 15
    assert_eq!(row_vals(&xor[0x5a]), vec![repr(12), repr(5), repr(10), repr(15)]);
    let and = FixedTableTag::BitwiseAnd.build();
    assert_eq!(row_vals(&and[0xc6]), vec![repr(10), repr(12), repr(6), repr(4)]);
}

#[test]
fn fixed_pow2_rows_split_at_128() {
    let pow2 = FixedTableTag::Pow2.build();
    assert_eq!(pow2.len(), 256);
    assert_eq!(row_vals(&pow2[3]), vec![repr(13), repr(3), repr(8), repr(0)]);
    assert_eq!(row_vals(&pow2[127]), vec![repr(13), repr(127), repr(1u128 << 127), repr(0)]);
    assert_eq!(row_vals(&pow2[130]), vec![repr(13), repr(130), repr(0), repr(4)]);
}

#[test]
fn pow2_table_rows() {
    let rows = Pow2LookupTable.build();
    assert_eq!(rows.len(), 256);
    assert_eq!(row_vals(&rows[0]), vec![repr(0), repr(1), repr(0)]);
    assert_eq!(row_vals(&rows[200]), vec![repr(200), repr(0), repr(1u128 << 72)]);
}

#[test]
fn bitwise_table_rows() {
    let rows = BitwiseLookupTable.build();
    assert_eq!(rows.len(), 768);
    let and = Opcode::BitAnd.index() as u128;
    let or = Opcode::BitOr.index() as u128;
    let xor = Opcode::Xor.index() as u128;
    assert_eq!(row_vals(&rows[0x3c]), vec![repr(and), repr(3), repr(12), repr(0)]);
    assert_eq!(row_vals(&rows[256 + 0x3c]), vec![repr(or), repr(3), repr(12), repr(15)]);
    assert_eq!(row_vals(&rows[512 + 0xff]), vec![repr(xor), repr(15), repr(15), repr(0)]);
}

#[test]
fn function_rows_are_unique_with_the_entry_last() {
    let infos = vec![
        FunctionInfo { def_module_index: 0, function_index: 1, num_arg: 2 },
        FunctionInfo { def_module_index: 0, function_index: 1, num_arg: 2 },
        FunctionInfo { def_module_index: 1, function_index: 0, num_arg: 0 },
    ];
    let rows = function_table_rows(&infos, 1, 0);
    assert_eq!(
        rows,
        vec![
            FunctionTableRow { module_index: 0, function_index: 1, num_arg: 2, entry: false },
            FunctionTableRow { module_index: 1, function_index: 0, num_arg: 0, entry: false },
            FunctionTableRow { module_index: 1, function_index: 0, num_arg: 0, entry: true },
        ]
    );
    let fields = rows[2].to_fields();
    assert_eq!(row_vals(&fields), vec![repr(1), repr(0), repr(0), repr(1)]);
}

#[test]
fn num_bytes_of_signature_tokens() {
    assert_eq!(get_num_bytes(&SignatureToken::U8), 1);
    assert_eq!(get_num_bytes(&SignatureToken::U16), 2);
    assert_eq!(get_num_bytes(&SignatureToken::U32), 4);
    assert_eq!(get_num_bytes(&SignatureToken::U256), 32);
    let (lo, hi) = convert_u256_to_fe_pair(U256::new(5, 6));
    assert_eq!((lo.to_repr(), hi.to_repr()), (repr(5), repr(6)));
}

fn item(v: u64) -> ValueItem {
    ValueItem { sub_index: Fe::from_u64(v), header: Fe::zero(), limbs: [Fe::from_u64(v + 1), Fe::zero()] }
}

#[test]
fn public_inputs_as_columns() {
    let args = vec![vec![item(1)], vec![item(2), item(3)], vec![item(4)]];
    let cols = public_inputs_to_fields(&args, &vec![2, 0]);
    assert_eq!(cols.len(), 4);
    assert_eq!(row_vals(&cols[0]), vec![repr(4), repr(1)]);
    assert_eq!(row_vals(&cols[2]), vec![repr(5), repr(2)]);
    // no public input: a single zero row
    let empty = public_inputs_to_fields(&args, &vec![]);
    assert!(empty.iter().all(|c| row_vals(c) == vec![repr(0)]));
}

#[test]
fn selector_assign_marks_one_pair() {
    let s = DynamicSelectorHalf::new(10, 5);
    assert_eq!(s.target_pairs.len(), 3);
    assert_eq!(s.target_odd, Cell { column: 13, rotation: 0 });
    assert_eq!(s.configure().len(), 1 + 1 + 3 + 1);
    let (odd, pairs) = s.assign(3);
    assert_eq!(odd.to_repr(), repr(1));
    assert_eq!(row_vals(&pairs), vec![repr(0), repr(1), repr(0)]);
    let (odd, pairs) = s.assign(4);
    assert_eq!(odd.to_repr(), repr(0));
    assert_eq!(row_vals(&pairs), vec![repr(0), repr(0), repr(1)]);
}

#[test]
fn step_assign_writes_every_cell() {
    let step = Step::new(1, Cell { column: 0, rotation: 0 }, 4);
    let w = StepWitness {
        exec_state: 2,
        clk: 7,
        frame_index: 0,
        module_index: 1,
        function_index: 2,
        pc: 3,
        sp: 4,
        opcode: 5,
        aux0: 6,
        aux1: 0,
    };
    let m = MemoryOp { pop: None, push: None, local: None };
    let cells = step.assign(1, &w, &m);
    assert!(!cells.is_empty());
    let clk = cells.iter().find(|(c, _)| *c == step.state.clk).unwrap();
    assert_eq!(clk.1.to_repr(), repr(7));
    let pc = cells.iter().find(|(c, _)| *c == step.state.pc).unwrap();
    assert_eq!(pc.1.to_repr(), repr(3));
    let _ = ConstraintBuilder::new();
}

#[test]
fn bytecode_operands_in_the_table() {
    let f = bytecode_to_fe(&Bytecode::LdU8(7), &vec![]);
    assert_eq!(row_vals(&f), vec![repr(Opcode::LdU8.index() as u128), repr(7), repr(0)]);
    let f = bytecode_to_fe(&Bytecode::Add, &vec![SignatureToken::U64]);
    assert_eq!(row_vals(&f), vec![repr(Opcode::Add.index() as u128), repr(8), repr(0)]);
    let f = bytecode_to_fe(&Bytecode::VecPack(3, 5), &vec![]);
    assert_eq!(row_vals(&f), vec![repr(Opcode::VecPack.index() as u128), repr(3), repr(5)]);
    let f = bytecode_to_fe(&Bytecode::LdU256(U256::new(1, 2)), &vec![]);
    assert_eq!(row_vals(&f), vec![repr(Opcode::LdU256.index() as u128), repr(1), repr(2)]);
    let f = bytecode_to_fe(&Bytecode::Pop, &vec![]);
    assert_eq!(row_vals(&f), vec![repr(Opcode::Pop.index() as u128), repr(0), repr(0)]);
    assert_eq!(Bytecode::BrTrue(4).opcode(), Opcode::BrTrue);

    let info = BytecodeInfo { module_index: 1, function_index: 2, pc: 3, bytecode: Bytecode::CopyLoc(9), ty_out: vec![] };
    let rows = BytecodeLookupTable.build(&vec![info.clone(), info]);
    assert_eq!(rows.len(), 2);
    assert_eq!(
        row_vals(&rows[1]),
        vec![repr(1), repr(2), repr(3), repr(Opcode::CopyLoc.index() as u128), repr(9), repr(0)]
    );
}

#[test]
fn bytecode_support_needs_an_integer_result_for_arithmetic() {
    let info = |bytecode: Bytecode, ty_out: Vec<SignatureToken>| BytecodeInfo {
        module_index: 0,
        function_index: 0,
        pc: 0,
        bytecode,
        ty_out,
    };
    assert!(is_supported(&info(Bytecode::Add, vec![SignatureToken::U64])));
    assert!(!is_supported(&info(Bytecode::Add, vec![])));
    assert!(!is_supported(&info(Bytecode::Nop, vec![])));
    assert!(is_supported(&info(Bytecode::CopyLoc(1), vec![])));
    assert!(!is_supported(&info(Bytecode::Sub, vec![SignatureToken::Bool])));
}
