use vm_circuit::expr::{Cell, Expression};
use vm_circuit::field::Fe;
use vm_circuit::instructions::br_true::BrTrue;
use vm_circuit::instructions::ldu8::LdU8;
use vm_circuit::instructions::ret::Ret;
use vm_circuit::instructions::sub::Sub;
use vm_circuit::instructions::{BytecodeLookup, RWLookup, SharedGate, StepChipCells, SynthesisError};
use vm_circuit::opcode::Opcode;
use vm_circuit::utils::evaluate_expression;

fn cell(column: usize) -> Cell {
    Cell { column, rotation: 0 }
}

// columns 0..256: selectors; then the state cells
fn cells() -> StepChipCells {
    StepChipCells {
        conditions: (0..256).map(cell).collect(),
        auxiliary: cell(256),
        value_a: cell(257),
        value_b: cell(258),
        value_c: cell(259),
        pc: cell(260),
        next_pc: cell(261),
        stack_size: cell(262),
        next_stack_size: cell(263),
        call_index: cell(264),
        next_call_index: cell(265),
        gc: cell(266),
        next_gc: cell(267),
    }
}

fn table(values: &[(usize, u64)]) -> Vec<Vec<Fe>> {
    let mut t: Vec<Vec<Fe>> = (0..268).map(|_| vec![Fe::zero()]).collect();
    for (c, v) in values {
        t[*c][0] = Fe::from_u64(*v);
    }
    t
}

fn holds(constraints: &[(&'static str, Expression)], t: &Vec<Vec<Fe>>) -> Vec<bool> {
    constraints
        .iter()
        .map(|(_, e)| evaluate_expression(e, t, 0).unwrap().to_repr() == [0u8; 32])
        .collect()
}

#[test]
fn br_true_jumps_on_true() {
    let c = cells();
    let mut cs = Vec::new();
    let mut rw = Vec::new();
    let mut bc = Vec::new();
    BrTrue::configure(&c, &mut cs, &mut rw, &mut bc);
    assert_eq!(cs.len(), 4);
    assert_eq!(rw.len(), 1);
    assert!(matches!(rw[0].0, RWLookup::StackPop { .. }));
    assert_eq!(bc.len(), 1);
    assert!(matches!(bc[0].0, BytecodeLookup { opcode: Opcode::BrTrue, .. }));
    let sel = Opcode::BrTrue.index() as usize;
    // taken: pc 5 -> target 9, stack 3 -> 2, gc 7 -> 8
    let taken = table(&[(sel, 1), (256, 9), (257, 1), (260, 5), (261, 9), (262, 3), (263, 2), (266, 7), (267, 8)]);
    assert_eq!(holds(&cs, &taken), vec![true, true, true, true]);
    // not taken: pc 5 -> 6
    let next = table(&[(sel, 1), (256, 9), (257, 0), (260, 5), (261, 6), (262, 3), (263, 2), (266, 7), (267, 8)]);
    assert_eq!(holds(&cs, &next), vec![true, true, true, true]);
    // a false condition that jumps anyway breaks the pc constraint
    let wrong = table(&[(sel, 1), (256, 9), (257, 0), (260, 5), (261, 9), (262, 3), (263, 2), (266, 7), (267, 8)]);
    assert_eq!(holds(&cs, &wrong), vec![false, true, true, true]);
}

#[test]
fn br_true_assign_reads_the_condition() {
    let rw = vec![Fe::from_u64(4), Fe::one()];
    let (aux, a) = BrTrue::assign(Some(Fe::from_u64(12)), &rw, 1).unwrap();
    assert_eq!(aux.to_repr(), Fe::from_u64(12).to_repr());
    assert_eq!(a.to_repr(), Fe::one().to_repr());
    assert_eq!(BrTrue::assign(None, &rw, 1).unwrap_err(), SynthesisError::Synthesis);
    assert_eq!(BrTrue::assign(Some(Fe::one()), &rw, 2).unwrap_err(), SynthesisError::Synthesis);
}

#[test]
fn sub_constrains_the_difference() {
    let c = cells();
    let (mut cs, mut rw, mut bc, mut shared) = (Vec::new(), Vec::new(), Vec::new(), Vec::new());
    Sub::configure(&c, &mut cs, &mut rw, &mut bc, &mut shared);
    assert_eq!(cs.len(), 1);
    assert!(rw.is_empty());
    assert_eq!(shared.len(), 1);
    assert_eq!(shared[0].0, SharedGate::BinaryOp);
    let sel = Opcode::Sub.index() as usize;
    assert_eq!(holds(&cs, &table(&[(sel, 1), (257, 9), (258, 4), (259, 5)])), vec![true]);
    assert_eq!(holds(&cs, &table(&[(sel, 1), (257, 9), (258, 4), (259, 6)])), vec![false]);
    // off its selector the constraint is idle
    assert_eq!(holds(&cs, &table(&[(257, 9), (258, 4), (259, 6)])), vec![true]);
}

#[test]
fn ldu8_and_ret_look_the_instruction_up() {
    let c = cells();
    let (mut cs, mut rw, mut bc, mut shared) = (Vec::new(), Vec::new(), Vec::new(), Vec::new());
    LdU8::configure(&c, &mut cs, &mut rw, &mut bc, &mut shared);
    Ret::configure(&c, &mut cs, &mut rw, &mut bc);
    assert!(cs.is_empty() && rw.is_empty());
    assert_eq!(shared.len(), 1);
    assert_eq!(shared[0].0, SharedGate::LoadOp);
    assert_eq!(bc.len(), 2);
    assert!(matches!(bc[0].0, BytecodeLookup { opcode: Opcode::LdU8, .. }));
    assert!(matches!(bc[1].0, BytecodeLookup { opcode: Opcode::Ret, .. }));
    let rw_values = vec![Fe::from_u64(200)];
    assert_eq!(LdU8::assign(&rw_values, 0).unwrap().to_repr(), Fe::from_u64(200).to_repr());
    assert_eq!(LdU8::assign(&rw_values, 1).unwrap_err(), SynthesisError::Synthesis);
}
