use vstd::prelude::*;
use vstd::arithmetic::power2::*;
use crate::expr::{Cell, Expression, Witness, e_cell, e_add, e_mul, eval};

verus! {

/// Number of 128-bit limbs of a stored value.
pub const NUM_OF_VALUE_LIMBS: usize = 2;

/// Number of cells that a step state occupies.
pub const NUM_OF_STEP_CELLS: usize = 35;

/// The step fields whose change from row to row a gadget can require.
#[derive(Clone, Copy, PartialEq, Eq, Debug)]
pub enum StateField {
    StepCounter,
    FrameIndex,
    ModuleIndex,
    FunctionIndex,
    Pc,
    Sp,
    Opcode,
    Aux0,
    Aux1,
}

/// The execution states (stages) of the VM circuit that the gadgets of this
/// library refer to.
#[derive(Clone, Copy, PartialEq, Eq, Debug)]
pub enum ExecutionState {
    Stop,
    Teardown,
    ErrorState,
    AddSub,
    AndOr,
    Bitwise,
    BitwiseStage1,
    BitwiseStage2,
    BrTrue,
    BrFalse,
    CallStage1,
    CallStage2,
    CallStage3,
    CopyLoc,
    MoveLoc,
    ImmBorrowLoc,
    MutBorrowLoc,
    Le,
    Gt,
    LdSimple,
    LdTrue,
    LdFalse,
    LdConst,
    MulDivMod,
    Pop,
    ShiftStage1,
    ShiftStage2,
    StoreLocStage1,
    StoreLocStage2,
    VecSwapStage1,
    VecSwapStage2,
    VecSwapStage3,
    VecSwapStage4,
    VecSwapStage5,
    StartStage1,
    StartStage2,
    UnpackStage1,
    UnpackStage2,
    VecUnpackStage1,
    VecUnpackStage2,
    EqStage1,
    EqStage2,
    NeqStage1,
    NeqStage2,
    Nop,
    VecPushBackStage1,
    VecPushBackStage2,
    WriteRefStage1,
    WriteRefStage2,
    WriteRefStage3,
    VecLen,
}

/// `c` moved `off` rows.
pub open spec fn rotate(c: Cell, off: int) -> Cell {
    Cell { column: c.column, rotation: (c.rotation + off) as i32 }
}

/// A value stored in a step: two 128-bit limbs, combined by a random linear
/// combination with the challenge.
#[derive(Clone, Copy, Debug)]
pub struct Value {
    pub cells: [Cell; 2],
    pub challenge: Cell,
}

/// `values[0] + values[1] * r`, the random linear combination (`rlc::expr`).
pub open spec fn e_rlc2(v0: Expression, v1: Expression, r: Expression) -> Expression {
    e_add(v0, e_mul(v1, r))
}

/// An integer value as its two 128-bit limbs.
#[derive(Debug)]
pub struct Integer {
    pub lo: Expression,
    pub hi: Expression,
}

/// A boolean value.
#[derive(Debug)]
pub struct Bool(pub Expression);

/// The header of a complex value: its length and its flattened length.
#[derive(Debug)]
pub struct ValueHeader {
    pub flen: Expression,
    pub len: Expression,
}

/// A location `(frame_index, local_index)`, packed as
/// `frame_index + local_index * 2^16`.
#[derive(Debug)]
pub struct Index {
    pub frame_index: Expression,
    pub local_index: Expression,
}

/// A reference: the index of the referenced local and a sub index into it.
#[derive(Debug)]
pub struct Reference {
    pub index: Expression,
    pub sub_index: Expression,
}

impl Value {
    pub open spec fn is_current(self) -> bool {
        self.cells[0].rotation == 0 && self.cells[1].rotation == 0
    }

    pub open spec fn spec_rotated(self, off: int) -> Value {
        Value { cells: [rotate(self.cells[0], off), rotate(self.cells[1], off)], challenge: self.challenge }
    }

    /// The value `off` rows further; the challenge does not move.
    pub fn rotated(&self, off: i32) -> (r: Value)
        requires
            self.is_current(),
        ensures
            r == self.spec_rotated(off as int),
    {
        Value { cells: [self.cells[0].at_offset(off), self.cells[1].at_offset(off)], challenge: self.challenge }
    }

    /// The random linear combination of the limbs.
    pub open spec fn spec_expr(self) -> Expression {
        e_rlc2(e_cell(self.cells[0]), e_cell(self.cells[1]), e_cell(self.challenge))
    }

    pub fn expr(&self) -> (r: Expression)
        ensures
            r == self.spec_expr(),
    {
        Expression::add(self.cells[0].expr(), Expression::mul(self.cells[1].expr(), self.challenge.expr()))
    }

    /// The expressions of the limbs.
    pub fn exprs(&self) -> (r: (Expression, Expression))
        ensures
            r.0 == e_cell(self.cells[0]),
            r.1 == e_cell(self.cells[1]),
    {
        (self.cells[0].expr(), self.cells[1].expr())
    }

    /// The value read as an integer: limb 0 is the low half, limb 1 the high.
    pub fn as_integer(&self) -> (r: Integer)
        ensures
            r.lo == e_cell(self.cells[0]),
            r.hi == e_cell(self.cells[1]),
    {
        Integer { lo: self.cells[0].expr(), hi: self.cells[1].expr() }
    }

    /// The value read as a boolean: limb 0.
    pub fn as_bool(&self) -> (r: Bool)
        ensures
            r.0 == e_cell(self.cells[0]),
    {
        Bool(self.cells[0].expr())
    }

    /// The value read as a header: limb 0 is the flattened length, limb 1 the length.
    pub fn as_header(&self) -> (r: ValueHeader)
        ensures
            r.flen == e_cell(self.cells[0]),
            r.len == e_cell(self.cells[1]),
    {
        ValueHeader { flen: self.cells[0].expr(), len: self.cells[1].expr() }
    }

    /// The value read as a reference: limb 0 is the index, limb 1 the sub index.
    pub fn as_reference(&self) -> (r: Reference)
        ensures
            r.index == e_cell(self.cells[0]),
            r.sub_index == e_cell(self.cells[1]),
    {
        Reference { index: self.cells[0].expr(), sub_index: self.cells[1].expr() }
    }
}

impl Integer {
    /// `lo + hi * 2^128`.
    pub open spec fn spec_expr(self) -> Expression {
        e_add(self.lo, e_mul(self.hi, Expression::PowerOfTwo(128)))
    }

    pub fn new(lo: Expression, hi: Expression) -> (r: Integer)
        ensures
            r.lo == lo,
            r.hi == hi,
    {
        Integer { lo, hi }
    }

    pub fn lo(&self) -> (r: Expression)
        ensures
            r == self.lo,
    {
        self.lo.copy()
    }

    pub fn hi(&self) -> (r: Expression)
        ensures
            r == self.hi,
    {
        self.hi.copy()
    }

    pub fn exprs(&self) -> (r: (Expression, Expression))
        ensures
            r.0 == self.lo,
            r.1 == self.hi,
    {
        (self.lo.copy(), self.hi.copy())
    }

    pub fn expr(&self) -> (r: Expression)
        ensures
            r == self.spec_expr(),
    {
        Expression::add(self.lo.copy(), Expression::mul(self.hi.copy(), Expression::pow_of_two(128)))
    }

    /// `selector ? when_true : when_false`, limb by limb, for a boolean selector.
    pub fn select(selector: Expression, when_true: Integer, when_false: Integer) -> (r: Integer)
        ensures
            r.lo == e_select(selector, when_true.lo, when_false.lo),
            r.hi == e_select(selector, when_true.hi, when_false.hi),
    {
        let lo = select_expr(selector.copy(), when_true.lo, when_false.lo);
        let hi = select_expr(selector, when_true.hi, when_false.hi);
        Integer { lo, hi }
    }
}

/// `s * a + (1 - s) * b` (`gadgets::util::select::expr`).
pub open spec fn e_select(s: Expression, a: Expression, b: Expression) -> Expression {
    e_add(e_mul(s, a), e_mul(crate::expr::e_not(s), b))
}

pub fn select_expr(s: Expression, a: Expression, b: Expression) -> (r: Expression)
    ensures
        r == e_select(s, a, b),
{
    let t = Expression::mul(s.copy(), a);
    Expression::add(t, Expression::mul(Expression::not(s), b))
}

/// With a boolean selector, selection picks one side.
pub proof fn lemma_select(s: Expression, a: Expression, b: Expression, w: Witness, row: int)
    requires
        eval(s, w, row) == 0 || eval(s, w, row) == 1,
    ensures
        eval(e_select(s, a, b), w, row) == if eval(s, w, row) == 1 { eval(a, w, row) } else { eval(b, w, row) },
{
    reveal_with_fuel(eval, 4);
    let sv = eval(s, w, row);
    let av = eval(a, w, row);
    let bv = eval(b, w, row);
    assert(eval(e_select(s, a, b), w, row) == sv * av + (1 - sv) * bv);
    if sv == 1 {
        assert(sv * av == av && (1 - sv) * bv == 0) by (nonlinear_arith)
            requires sv == 1;
    } else {
        assert(sv * av == 0 && (1 - sv) * bv == bv) by (nonlinear_arith)
            requires sv == 0;
    }
}

impl Bool {
    pub fn new(value: Expression) -> (r: Bool)
        ensures
            r.0 == value,
    {
        Bool(value)
    }

    pub fn expr(&self) -> (r: Expression)
        ensures
            r == self.0,
    {
        self.0.copy()
    }
}

impl ValueHeader {
    pub fn flen(&self) -> (r: Expression)
        ensures
            r == self.flen,
    {
        self.flen.copy()
    }

    pub fn len(&self) -> (r: Expression)
        ensures
            r == self.len,
    {
        self.len.copy()
    }

    pub fn pair(len: Expression, flen: Expression) -> (r: ValueHeader)
        ensures
            r.len == len,
            r.flen == flen,
    {
        ValueHeader { flen, len }
    }

    /// `flen + len * r`: the header in the form of a stored value.
    pub open spec fn spec_expr(self, challenge: Cell) -> Expression {
        e_rlc2(self.flen, self.len, e_cell(challenge))
    }

    pub fn expr(&self, challenge: Cell) -> (r: Expression)
        ensures
            r == self.spec_expr(challenge),
    {
        Expression::add(self.flen.copy(), Expression::mul(self.len.copy(), challenge.expr()))
    }
}

impl Index {
    pub fn new(frame_index: Expression, local_index: Expression) -> (r: Index)
        ensures
            r.frame_index == frame_index,
            r.local_index == local_index,
    {
        Index { frame_index, local_index }
    }

    /// `frame_index + local_index * 2^16`.
    pub open spec fn spec_expr(self) -> Expression {
        e_add(self.frame_index, e_mul(self.local_index, Expression::PowerOfTwo(16)))
    }

    pub fn expr(&self) -> (r: Expression)
        ensures
            r == self.spec_expr(),
    {
        Expression::add(self.frame_index.copy(), Expression::mul(self.local_index.copy(), Expression::pow_of_two(16)))
    }
}

impl Reference {
    pub fn index(&self) -> (r: Expression)
        ensures
            r == self.index,
    {
        self.index.copy()
    }

    pub fn sub_index(&self) -> (r: Expression)
        ensures
            r == self.sub_index,
    {
        self.sub_index.copy()
    }
}

/// The cells of one step of the execution trace.
#[derive(Clone, Copy, Debug)]
pub struct StepState {
    pub clk: Cell,
    pub frame_index: Cell,
    pub module_index: Cell,
    pub function_index: Cell,
    pub pc: Cell,
    pub sp: Cell,
    pub opcode: Cell,
    pub aux0: Cell,
    pub aux1: Cell,
    pub step_counter: Cell,
    pub stack_pop_index: Cell,
    pub stack_pop_sub_index: Cell,
    pub stack_pop_value: Value,
    pub stack_pop_value_header: Cell,
    pub stack_pop_version: Cell,
    pub stack_push_index: Cell,
    pub stack_push_sub_index: Cell,
    pub stack_push_value: Value,
    pub stack_push_value_header: Cell,
    pub stack_push_version: Cell,
    pub local_frame_index: Cell,
    pub local_index: Cell,
    pub local_sub_index: Cell,
    pub local_read_value: Value,
    pub local_read_value_header: Cell,
    pub local_read_value_invalid: Cell,
    pub local_read_version: Cell,
    pub local_write_value: Value,
    pub local_write_value_header: Cell,
    pub local_write_value_invalid: Cell,
    pub local_write_version: Cell,
}

impl StepState {
    /// Every cell is read at the row of the step itself.
    pub open spec fn is_current(self) -> bool {
        self.clk.rotation == 0 && self.frame_index.rotation == 0 && self.module_index.rotation == 0 && self.function_index.rotation == 0 && self.pc.rotation == 0 && self.sp.rotation == 0 && self.opcode.rotation == 0 && self.aux0.rotation == 0 && self.aux1.rotation == 0 && self.step_counter.rotation == 0 && self.stack_pop_index.rotation == 0 && self.stack_pop_sub_index.rotation == 0 && self.stack_pop_value.is_current() && self.stack_pop_value_header.rotation == 0 && self.stack_pop_version.rotation == 0 && self.stack_push_index.rotation == 0 && self.stack_push_sub_index.rotation == 0 && self.stack_push_value.is_current() && self.stack_push_value_header.rotation == 0 && self.stack_push_version.rotation == 0 && self.local_frame_index.rotation == 0 && self.local_index.rotation == 0 && self.local_sub_index.rotation == 0 && self.local_read_value.is_current() && self.local_read_value_header.rotation == 0 && self.local_read_value_invalid.rotation == 0 && self.local_read_version.rotation == 0 && self.local_write_value.is_current() && self.local_write_value_header.rotation == 0 && self.local_write_value_invalid.rotation == 0 && self.local_write_version.rotation == 0
    }

    pub open spec fn spec_at_offset(self, off: int) -> StepState {
        StepState {
            clk: rotate(self.clk, off),
            frame_index: rotate(self.frame_index, off),
            module_index: rotate(self.module_index, off),
            function_index: rotate(self.function_index, off),
            pc: rotate(self.pc, off),
            sp: rotate(self.sp, off),
            opcode: rotate(self.opcode, off),
            aux0: rotate(self.aux0, off),
            aux1: rotate(self.aux1, off),
            step_counter: rotate(self.step_counter, off),
            stack_pop_index: rotate(self.stack_pop_index, off),
            stack_pop_sub_index: rotate(self.stack_pop_sub_index, off),
            stack_pop_value: self.stack_pop_value.spec_rotated(off),
            stack_pop_value_header: rotate(self.stack_pop_value_header, off),
            stack_pop_version: rotate(self.stack_pop_version, off),
            stack_push_index: rotate(self.stack_push_index, off),
            stack_push_sub_index: rotate(self.stack_push_sub_index, off),
            stack_push_value: self.stack_push_value.spec_rotated(off),
            stack_push_value_header: rotate(self.stack_push_value_header, off),
            stack_push_version: rotate(self.stack_push_version, off),
            local_frame_index: rotate(self.local_frame_index, off),
            local_index: rotate(self.local_index, off),
            local_sub_index: rotate(self.local_sub_index, off),
            local_read_value: self.local_read_value.spec_rotated(off),
            local_read_value_header: rotate(self.local_read_value_header, off),
            local_read_value_invalid: rotate(self.local_read_value_invalid, off),
            local_read_version: rotate(self.local_read_version, off),
            local_write_value: self.local_write_value.spec_rotated(off),
            local_write_value_header: rotate(self.local_write_value_header, off),
            local_write_value_invalid: rotate(self.local_write_value_invalid, off),
            local_write_version: rotate(self.local_write_version, off),
        }
    }

    /// The same step state read `off` rows further (`step_state_at_offset`).
    pub fn at_offset(&self, off: i32) -> (r: StepState)
        requires
            self.is_current(),
        ensures
            r == self.spec_at_offset(off as int),
    {
        StepState {
            clk: self.clk.at_offset(off),
            frame_index: self.frame_index.at_offset(off),
            module_index: self.module_index.at_offset(off),
            function_index: self.function_index.at_offset(off),
            pc: self.pc.at_offset(off),
            sp: self.sp.at_offset(off),
            opcode: self.opcode.at_offset(off),
            aux0: self.aux0.at_offset(off),
            aux1: self.aux1.at_offset(off),
            step_counter: self.step_counter.at_offset(off),
            stack_pop_index: self.stack_pop_index.at_offset(off),
            stack_pop_sub_index: self.stack_pop_sub_index.at_offset(off),
            stack_pop_value: self.stack_pop_value.rotated(off),
            stack_pop_value_header: self.stack_pop_value_header.at_offset(off),
            stack_pop_version: self.stack_pop_version.at_offset(off),
            stack_push_index: self.stack_push_index.at_offset(off),
            stack_push_sub_index: self.stack_push_sub_index.at_offset(off),
            stack_push_value: self.stack_push_value.rotated(off),
            stack_push_value_header: self.stack_push_value_header.at_offset(off),
            stack_push_version: self.stack_push_version.at_offset(off),
            local_frame_index: self.local_frame_index.at_offset(off),
            local_index: self.local_index.at_offset(off),
            local_sub_index: self.local_sub_index.at_offset(off),
            local_read_value: self.local_read_value.rotated(off),
            local_read_value_header: self.local_read_value_header.at_offset(off),
            local_read_value_invalid: self.local_read_value_invalid.at_offset(off),
            local_read_version: self.local_read_version.at_offset(off),
            local_write_value: self.local_write_value.rotated(off),
            local_write_value_header: self.local_write_value_header.at_offset(off),
            local_write_value_invalid: self.local_write_value_invalid.at_offset(off),
            local_write_version: self.local_write_version.at_offset(off),
        }
    }

    /// A step state on columns `first .. first + NUM_OF_STEP_CELLS`, with its
    /// values combined by `challenge`, in the order `Step::new` queries them.
    pub fn allocate(first: usize, challenge: Cell) -> (r: StepState)
        requires
            first + NUM_OF_STEP_CELLS <= usize::MAX,
        ensures
            r.is_current(),
            r == step_layout(first as int, challenge),
    {
        let c = |k: usize| -> (r: Cell)
            requires first + k <= usize::MAX,
            ensures r == layout_cell(first as int, k as int),
        { Cell { column: first + k, rotation: 0 } };
        StepState {
            clk: c(0),
            stack_pop_version: c(1),
            frame_index: c(2),
            module_index: c(3),
            function_index: c(4),
            pc: c(5),
            sp: c(6),
            opcode: c(7),
            aux0: c(8),
            aux1: c(9),
            step_counter: c(10),
            stack_pop_index: c(11),
            stack_pop_sub_index: c(12),
            stack_pop_value: Value { cells: [c(13), c(14)], challenge },
            stack_pop_value_header: c(15),
            stack_push_index: c(16),
            stack_push_sub_index: c(17),
            stack_push_value: Value { cells: [c(18), c(19)], challenge },
            stack_push_value_header: c(20),
            stack_push_version: c(21),
            local_frame_index: c(22),
            local_index: c(23),
            local_sub_index: c(24),
            local_read_value: Value { cells: [c(25), c(26)], challenge },
            local_read_value_header: c(27),
            local_read_value_invalid: c(28),
            local_read_version: c(29),
            local_write_value: Value { cells: [c(30), c(31)], challenge },
            local_write_value_header: c(32),
            local_write_value_invalid: c(33),
            local_write_version: c(34),
        }
    }
}

/// Cell `k` of a step laid out from column `first`.
pub open spec fn layout_cell(first: int, k: int) -> Cell {
    Cell { column: (first + k) as usize, rotation: 0 }
}

/// The cells of a step laid out from column `first`: `clk`, then
/// `stack_pop_version`, then the other cells in the order of the fields.
pub open spec fn step_layout(first: int, challenge: Cell) -> StepState {
    let c = |k: int| layout_cell(first, k);
    StepState {
        clk: c(0),
        stack_pop_version: c(1),
        frame_index: c(2),
        module_index: c(3),
        function_index: c(4),
        pc: c(5),
        sp: c(6),
        opcode: c(7),
        aux0: c(8),
        aux1: c(9),
        step_counter: c(10),
        stack_pop_index: c(11),
        stack_pop_sub_index: c(12),
        stack_pop_value: Value { cells: [c(13), c(14)], challenge },
        stack_pop_value_header: c(15),
        stack_push_index: c(16),
        stack_push_sub_index: c(17),
        stack_push_value: Value { cells: [c(18), c(19)], challenge },
        stack_push_value_header: c(20),
        stack_push_version: c(21),
        local_frame_index: c(22),
        local_index: c(23),
        local_sub_index: c(24),
        local_read_value: Value { cells: [c(25), c(26)], challenge },
        local_read_value_header: c(27),
        local_read_value_invalid: c(28),
        local_read_version: c(29),
        local_write_value: Value { cells: [c(30), c(31)], challenge },
        local_write_value_header: c(32),
        local_write_value_invalid: c(33),
        local_write_version: c(34),
    }
}

} // verus!
