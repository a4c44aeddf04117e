pub mod br_true;
pub mod ldu8;
pub mod ret;
pub mod sub;

use vstd::prelude::*;
use crate::expr::{Cell, Expression, e_cell};
use crate::opcode::Opcode;

verus! {

/// The cells of one row of the single-row step chip: the selector of each
/// opcode (by its index), the auxiliary operand, the stack values of the
/// instruction, and the state before and after the step.
#[derive(Debug)]
pub struct StepChipCells {
    pub conditions: Vec<Cell>,
    pub auxiliary: Cell,
    pub value_a: Cell,
    pub value_b: Cell,
    pub value_c: Cell,
    pub pc: Cell,
    pub next_pc: Cell,
    pub stack_size: Cell,
    pub next_stack_size: Cell,
    pub call_index: Cell,
    pub next_call_index: Cell,
    pub gc: Cell,
    pub next_gc: Cell,
}

impl StepChipCells {
    /// The chip has a selector for `op`.
    pub open spec fn has_condition(self, op: Opcode) -> bool {
        op.spec_index() < self.conditions@.len()
    }

    /// The selector of `op`.
    pub open spec fn spec_condition(self, op: Opcode) -> Expression {
        e_cell(self.conditions@[op.spec_index() as int])
    }

    pub fn condition(&self, op: Opcode) -> (r: Expression)
        requires
            self.has_condition(op),
        ensures
            r == self.spec_condition(op),
    {
        let i = op.index();
        self.conditions[i as usize].expr()
    }
}

/// A lookup into the read-write table: a pop of `value` from the stack at
/// `stack_size`, by the global counter `gc`.
#[derive(Debug)]
pub enum RWLookup {
    StackPop { gc: Expression, stack_size: Expression, value: Expression },
}

/// A lookup into the bytecode table: the step's instruction is `opcode`
/// with the operand `operand`.
#[derive(Debug)]
pub struct BytecodeLookup {
    pub opcode: Opcode,
    pub operand: Expression,
}

/// The gates that several instructions share: those of a load, which pushes
/// its operand, and those of a binary operation, which pops two values and
/// pushes one.
#[derive(Clone, Copy, PartialEq, Eq, Debug)]
pub enum SharedGate {
    LoadOp,
    BinaryOp,
}

/// A witness that the step's inputs do not provide.
#[derive(Clone, Copy, PartialEq, Eq, Debug)]
pub enum SynthesisError {
    Synthesis,
}

} // verus!
