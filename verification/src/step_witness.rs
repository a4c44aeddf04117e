use vstd::prelude::*;
use crate::expr::{Cell, Expression};
use crate::field::Fe;
use crate::selector::{DynamicSelectorHalf, e_selector};
use crate::step::{NUM_OF_STEP_CELLS, StepState, step_layout};

verus! {

/// One step of the circuit: the cells of its state and the selector of its
/// execution state.
#[derive(Debug)]
pub struct Step {
    pub state: StepState,
    pub execution_state: DynamicSelectorHalf,
}

/// The state of the VM at one step, as the trace records it.
#[derive(Clone, Copy, Debug)]
pub struct StepWitness {
    /// The number of the execution state.
    pub exec_state: usize,
    pub clk: u64,
    pub frame_index: u64,
    pub module_index: u64,
    pub function_index: u64,
    pub pc: u64,
    pub sp: u64,
    pub opcode: u16,
    pub aux0: u128,
    pub aux1: u128,
}

/// A stack pop or push.
#[derive(Clone, Copy, Debug)]
pub struct StackOp {
    pub index: u64,
    pub sub_index: u128,
    pub value_header: bool,
    pub version: u64,
    /// The two limbs of the value.
    pub value: [u128; 2],
}

/// A read and write of a local.
#[derive(Clone, Copy, Debug)]
pub struct LocalOp {
    pub frame_index: u64,
    pub index: u64,
    pub sub_index: u128,
    pub read_value: [u128; 2],
    pub read_value_header: bool,
    pub read_value_invalid: bool,
    pub read_version: u64,
    pub write_value: [u128; 2],
    pub write_value_header: bool,
    pub write_value_invalid: bool,
    pub write_version: u64,
}

/// The memory operations of a step: a stack pop, a stack push and a local
/// access, each of which may be absent.
#[derive(Clone, Copy, Debug)]
pub struct MemoryOp {
    pub pop: Option<StackOp>,
    pub push: Option<StackOp>,
    pub local: Option<LocalOp>,
}

pub open spec fn bool_val(b: bool) -> nat {
    if b { 1 } else { 0 }
}

/// The cells of a stack access with their values; all zero when absent.
pub open spec fn stack_op_values(index: Cell, sub_index: Cell, header: Cell, version: Cell, value: [Cell; 2],
    op: Option<StackOp>) -> Seq<(Cell, nat)> {
    match op {
        Some(o) => seq![(index, o.index as nat), (sub_index, o.sub_index as nat), (header, bool_val(o.value_header)),
            (version, o.version as nat), (value[0], o.value[0] as nat), (value[1], o.value[1] as nat)],
        None => seq![(index, 0nat), (sub_index, 0nat), (header, 0nat), (version, 0nat), (value[0], 0nat), (value[1], 0nat)],
    }
}

/// The cells of the local access with their values; all zero when absent.
pub open spec fn local_op_values(s: StepState, op: Option<LocalOp>) -> Seq<(Cell, nat)> {
    let cells = seq![s.local_frame_index, s.local_index, s.local_sub_index, s.local_read_value.cells[0],
        s.local_read_value.cells[1], s.local_read_value_header, s.local_read_value_invalid, s.local_read_version,
        s.local_write_value.cells[0], s.local_write_value.cells[1], s.local_write_value_header,
        s.local_write_value_invalid, s.local_write_version];
    let vals: Seq<nat> = match op {
        Some(o) => seq![o.frame_index as nat, o.index as nat, o.sub_index as nat, o.read_value[0] as nat,
            o.read_value[1] as nat, bool_val(o.read_value_header), bool_val(o.read_value_invalid), o.read_version as nat,
            o.write_value[0] as nat, o.write_value[1] as nat, bool_val(o.write_value_header),
            bool_val(o.write_value_invalid), o.write_version as nat],
        None => Seq::new(13, |i: int| 0nat),
    };
    Seq::new(13, |i: int| (cells[i], vals[i]))
}

/// The cells of the selector with their values for target `t`.
pub open spec fn selector_values(sel: DynamicSelectorHalf, t: nat) -> Seq<(Cell, nat)> {
    seq![(sel.target_odd, t % 2)] + Seq::new(sel.target_pairs@.len(), |j: int|
        (sel.target_pairs@[j], if j == t / 2 { 1nat } else { 0nat }))
}

/// Every cell of a step with the value that the trace gives it, in the order
/// of `assign_exec_step`.
pub open spec fn step_values(s: StepState, sel: DynamicSelectorHalf, step_counter: nat, w: StepWitness, m: MemoryOp)
    -> Seq<(Cell, nat)> {
    selector_values(sel, w.exec_state as nat)
        + seq![
            (s.step_counter, step_counter),
            (s.clk, w.clk as nat),
            (s.frame_index, w.frame_index as nat),
            (s.module_index, w.module_index as nat),
            (s.function_index, w.function_index as nat),
            (s.pc, w.pc as nat),
            (s.sp, w.sp as nat),
            (s.opcode, w.opcode as nat),
            (s.aux0, w.aux0 as nat),
            (s.aux1, w.aux1 as nat),
        ]
        + stack_op_values(s.stack_pop_index, s.stack_pop_sub_index, s.stack_pop_value_header, s.stack_pop_version,
            s.stack_pop_value.cells, m.pop)
        + stack_op_values(s.stack_push_index, s.stack_push_sub_index, s.stack_push_value_header, s.stack_push_version,
            s.stack_push_value.cells, m.push)
        + local_op_values(s, m.local)
}

/// `e` gives cell `c` the value `v`.
pub open spec fn gives(e: Seq<(Cell, nat)>, c: Cell, v: nat) -> bool {
    exists|i: int| 0 <= i < e.len() && e[i] == (c, v)
}

/// Each cell of a step gets the trace's field of the same name: the state's
/// cells their fields of `w`, the stack cells those of the pop and of the
/// push, the local cells those of the local access (read value, header,
/// invalid flag and version to the `local_read_*` cells, written ones to the
/// `local_write_*` cells), and an absent access zeros.
pub proof fn lemma_step_values_fields(s: StepState, sel: DynamicSelectorHalf, step_counter: nat, w: StepWitness,
    m: MemoryOp)
    ensures
        ({
            let e = step_values(s, sel, step_counter, w, m);
            &&& gives(e, s.step_counter, step_counter)
            &&& gives(e, s.clk, w.clk as nat)
            &&& gives(e, s.frame_index, w.frame_index as nat)
            &&& gives(e, s.module_index, w.module_index as nat)
            &&& gives(e, s.function_index, w.function_index as nat)
            &&& gives(e, s.pc, w.pc as nat)
            &&& gives(e, s.sp, w.sp as nat)
            &&& gives(e, s.opcode, w.opcode as nat)
            &&& gives(e, s.aux0, w.aux0 as nat)
            &&& gives(e, s.aux1, w.aux1 as nat)
            &&& m.pop matches Some(o) ==> {
                &&& gives(e, s.stack_pop_index, o.index as nat)
                &&& gives(e, s.stack_pop_sub_index, o.sub_index as nat)
                &&& gives(e, s.stack_pop_value_header, bool_val(o.value_header))
                &&& gives(e, s.stack_pop_version, o.version as nat)
                &&& gives(e, s.stack_pop_value.cells[0], o.value[0] as nat)
                &&& gives(e, s.stack_pop_value.cells[1], o.value[1] as nat)
            }
            &&& m.push matches Some(o) ==> {
                &&& gives(e, s.stack_push_index, o.index as nat)
                &&& gives(e, s.stack_push_sub_index, o.sub_index as nat)
                &&& gives(e, s.stack_push_value_header, bool_val(o.value_header))
                &&& gives(e, s.stack_push_version, o.version as nat)
                &&& gives(e, s.stack_push_value.cells[0], o.value[0] as nat)
                &&& gives(e, s.stack_push_value.cells[1], o.value[1] as nat)
            }
            &&& m.local matches Some(o) ==> {
                &&& gives(e, s.local_frame_index, o.frame_index as nat)
                &&& gives(e, s.local_index, o.index as nat)
                &&& gives(e, s.local_sub_index, o.sub_index as nat)
                &&& gives(e, s.local_read_value.cells[0], o.read_value[0] as nat)
                &&& gives(e, s.local_read_value.cells[1], o.read_value[1] as nat)
                &&& gives(e, s.local_read_value_header, bool_val(o.read_value_header))
                &&& gives(e, s.local_read_value_invalid, bool_val(o.read_value_invalid))
                &&& gives(e, s.local_read_version, o.read_version as nat)
                &&& gives(e, s.local_write_value.cells[0], o.write_value[0] as nat)
                &&& gives(e, s.local_write_value.cells[1], o.write_value[1] as nat)
                &&& gives(e, s.local_write_value_header, bool_val(o.write_value_header))
                &&& gives(e, s.local_write_value_invalid, bool_val(o.write_value_invalid))
                &&& gives(e, s.local_write_version, o.write_version as nat)
            }
            &&& m.local is None ==> {
                &&& gives(e, s.local_frame_index, 0) && gives(e, s.local_index, 0) && gives(e, s.local_sub_index, 0)
                &&& gives(e, s.local_read_version, 0) && gives(e, s.local_write_version, 0)
            }
        }),
{
    let e = step_values(s, sel, step_counter, w, m);
    let sv = selector_values(sel, w.exec_state as nat);
    let l = sv.len() as int;
    let st = seq![
        (s.step_counter, step_counter),
        (s.clk, w.clk as nat),
        (s.frame_index, w.frame_index as nat),
        (s.module_index, w.module_index as nat),
        (s.function_index, w.function_index as nat),
        (s.pc, w.pc as nat),
        (s.sp, w.sp as nat),
        (s.opcode, w.opcode as nat),
        (s.aux0, w.aux0 as nat),
        (s.aux1, w.aux1 as nat),
    ];
    let pop = stack_op_values(s.stack_pop_index, s.stack_pop_sub_index, s.stack_pop_value_header, s.stack_pop_version,
        s.stack_pop_value.cells, m.pop);
    let push = stack_op_values(s.stack_push_index, s.stack_push_sub_index, s.stack_push_value_header,
        s.stack_push_version, s.stack_push_value.cells, m.push);
    let lv = local_op_values(s, m.local);
    assert(e == sv + st + pop + push + lv);
    assert forall|j: int| 0 <= j < 10 implies #[trigger] e[l + j] == st[j] by {}
    assert forall|j: int| 0 <= j < 6 implies #[trigger] e[l + 10 + j] == pop[j] by {}
    assert forall|j: int| 0 <= j < 6 implies #[trigger] e[l + 16 + j] == push[j] by {}
    assert forall|j: int| 0 <= j < 13 implies #[trigger] e[l + 22 + j] == lv[j] by {}
    assert(gives(e, s.step_counter, step_counter)) by { assert(e[l + 0] == st[0]); }
    assert(gives(e, s.clk, w.clk as nat)) by { assert(e[l + 1] == st[1]); }
    assert(gives(e, s.frame_index, w.frame_index as nat)) by { assert(e[l + 2] == st[2]); }
    assert(gives(e, s.module_index, w.module_index as nat)) by { assert(e[l + 3] == st[3]); }
    assert(gives(e, s.function_index, w.function_index as nat)) by { assert(e[l + 4] == st[4]); }
    assert(gives(e, s.pc, w.pc as nat)) by { assert(e[l + 5] == st[5]); }
    assert(gives(e, s.sp, w.sp as nat)) by { assert(e[l + 6] == st[6]); }
    assert(gives(e, s.opcode, w.opcode as nat)) by { assert(e[l + 7] == st[7]); }
    assert(gives(e, s.aux0, w.aux0 as nat)) by { assert(e[l + 8] == st[8]); }
    assert(gives(e, s.aux1, w.aux1 as nat)) by { assert(e[l + 9] == st[9]); }
    if let Some(o) = m.pop {
        assert(gives(e, s.stack_pop_index, o.index as nat)) by { assert(e[l + 10] == pop[0]); }
        assert(gives(e, s.stack_pop_sub_index, o.sub_index as nat)) by { assert(e[l + 11] == pop[1]); }
        assert(gives(e, s.stack_pop_value_header, bool_val(o.value_header))) by { assert(e[l + 12] == pop[2]); }
        assert(gives(e, s.stack_pop_version, o.version as nat)) by { assert(e[l + 13] == pop[3]); }
        assert(gives(e, s.stack_pop_value.cells[0], o.value[0] as nat)) by { assert(e[l + 14] == pop[4]); }
        assert(gives(e, s.stack_pop_value.cells[1], o.value[1] as nat)) by { assert(e[l + 15] == pop[5]); }
    }
    if let Some(o) = m.push {
        assert(gives(e, s.stack_push_index, o.index as nat)) by { assert(e[l + 16] == push[0]); }
        assert(gives(e, s.stack_push_sub_index, o.sub_index as nat)) by { assert(e[l + 17] == push[1]); }
        assert(gives(e, s.stack_push_value_header, bool_val(o.value_header))) by { assert(e[l + 18] == push[2]); }
        assert(gives(e, s.stack_push_version, o.version as nat)) by { assert(e[l + 19] == push[3]); }
        assert(gives(e, s.stack_push_value.cells[0], o.value[0] as nat)) by { assert(e[l + 20] == push[4]); }
        assert(gives(e, s.stack_push_value.cells[1], o.value[1] as nat)) by { assert(e[l + 21] == push[5]); }
    }
    assert(gives(e, s.local_frame_index, lv[0].1)) by { assert(e[l + 22] == lv[0]); }
    assert(gives(e, s.local_index, lv[1].1)) by { assert(e[l + 23] == lv[1]); }
    assert(gives(e, s.local_sub_index, lv[2].1)) by { assert(e[l + 24] == lv[2]); }
    assert(gives(e, s.local_read_value.cells[0], lv[3].1)) by { assert(e[l + 25] == lv[3]); }
    assert(gives(e, s.local_read_value.cells[1], lv[4].1)) by { assert(e[l + 26] == lv[4]); }
    assert(gives(e, s.local_read_value_header, lv[5].1)) by { assert(e[l + 27] == lv[5]); }
    assert(gives(e, s.local_read_value_invalid, lv[6].1)) by { assert(e[l + 28] == lv[6]); }
    assert(gives(e, s.local_read_version, lv[7].1)) by { assert(e[l + 29] == lv[7]); }
    assert(gives(e, s.local_write_value.cells[0], lv[8].1)) by { assert(e[l + 30] == lv[8]); }
    assert(gives(e, s.local_write_value.cells[1], lv[9].1)) by { assert(e[l + 31] == lv[9]); }
    assert(gives(e, s.local_write_value_header, lv[10].1)) by { assert(e[l + 32] == lv[10]); }
    assert(gives(e, s.local_write_value_invalid, lv[11].1)) by { assert(e[l + 33] == lv[11]); }
    assert(gives(e, s.local_write_version, lv[12].1)) by { assert(e[l + 34] == lv[12]); }
}

/// `r` assigns cell `c` the value `v`.
pub open spec fn assigned(r: Seq<(Cell, Fe)>, c: Cell, v: nat) -> bool {
    exists|i: int| 0 <= i < r.len() && r[i].0 == c && r[i].1.val() == v
}

/// What `gives` the expected values, the assignments that match them assign.
proof fn lemma_assigns_gives(r: Seq<(Cell, Fe)>, e: Seq<(Cell, nat)>)
    requires
        assigns(r, e),
    ensures
        forall|c: Cell, v: nat| #[trigger] gives(e, c, v) ==> assigned(r, c, v),
{
    assert forall|c: Cell, v: nat| #[trigger] gives(e, c, v) implies assigned(r, c, v) by {
        let i = choose|i: int| 0 <= i < e.len() && e[i] == (c, v);
        assert(r[i].0 == e[i].0 && r[i].1.val() == e[i].1);
    }
}

/// The assignments `(cell, value)` of one step, the values as field elements.
pub open spec fn assigns(r: Seq<(Cell, Fe)>, expected: Seq<(Cell, nat)>) -> bool {
    &&& r.len() == expected.len()
    &&& forall|i: int| 0 <= i < r.len() ==> (#[trigger] r[i]).0 == expected[i].0 && r[i].1.val() == expected[i].1
}

fn push_u128(out: &mut Vec<(Cell, Fe)>, c: Cell, v: u128)
    ensures
        final(out)@ == old(out)@.push((c, final(out)@.last().1)),
        final(out)@.last().1.val() == v,
{
    out.push((c, Fe::from_u128(v)));
}

fn push_stack_op(out: &mut Vec<(Cell, Fe)>, index: Cell, sub_index: Cell, header: Cell, version: Cell, value: [Cell; 2],
    op: &Option<StackOp>)
    ensures
        final(out)@.len() == old(out)@.len() + 6,
        final(out)@.take(old(out)@.len() as int) == old(out)@,
        assigns(final(out)@.skip(old(out)@.len() as int), stack_op_values(index, sub_index, header, version, value, *op)),
{
    let ghost start = out@;
    let (i, s, h, v, v0, v1): (u64, u128, bool, u64, u128, u128) = match op {
        Some(o) => (o.index, o.sub_index, o.value_header, o.version, o.value[0], o.value[1]),
        None => (0, 0, false, 0, 0, 0),
    };
    push_u128(out, index, i as u128);
    push_u128(out, sub_index, s);
    out.push((header, Fe::from_bool(h)));
    push_u128(out, version, v as u128);
    push_u128(out, value[0], v0);
    push_u128(out, value[1], v1);
    proof {
        let t = out@.skip(start.len() as int);
        let e = stack_op_values(index, sub_index, header, version, value, *op);
        assert(out@.take(start.len() as int) =~= start);
        assert forall|k: int| 0 <= k < t.len() implies (#[trigger] t[k]).0 == e[k].0 && t[k].1.val() == e[k].1 by {
            assert(t[k] == out@[start.len() + k]);
        }
    }
}

impl Step {
    /// A step whose state takes the columns from `first` and whose selector of
    /// `count` execution states follows.
    pub fn new(first: usize, challenge: Cell, count: usize) -> (r: Step)
        requires
            first + NUM_OF_STEP_CELLS + count <= usize::MAX - 2,
        ensures
            r.state == step_layout(first as int, challenge),
            r.execution_state.count == count,
            r.execution_state.target_pairs@.len() == (count + 1) / 2,
            forall|i: int| 0 <= i < r.execution_state.target_pairs@.len() ==>
                #[trigger] r.execution_state.target_pairs@[i]
                    == (Cell { column: (first + NUM_OF_STEP_CELLS + i) as usize, rotation: 0 }),
            r.execution_state.target_odd
                == (Cell { column: (first + NUM_OF_STEP_CELLS + (count + 1) / 2) as usize, rotation: 0 }),
    {
        let state = StepState::allocate(first, challenge);
        let execution_state = DynamicSelectorHalf::new(first + NUM_OF_STEP_CELLS, count);
        Step { state, execution_state }
    }

    /// The expression that is `1` on a row whose execution state is one of
    /// `execution_states`, each given by its number.
    pub fn execution_state_selector(&self, execution_states: &Vec<usize>) -> (r: Expression)
        requires
            execution_states@.len() >= 1,
            forall|i: int| 0 <= i < execution_states@.len() ==>
                #[trigger] execution_states@[i] / 2 < self.execution_state.target_pairs@.len(),
        ensures
            r == e_selector(self.execution_state.target_odd, self.execution_state.target_pairs@, execution_states@),
    {
        self.execution_state.selector(execution_states)
    }

    /// The values of every cell of the step for the trace's state `w`, its
    /// memory operations `m` and its row `step_counter` within the stage
    /// (`assign_exec_step`).
    #[verifier::rlimit(40)]
    pub fn assign_exec_step(&self, step_counter: usize, w: &StepWitness, m: &MemoryOp) -> (r: Vec<(Cell, Fe)>)
        ensures
            assigns(r@, step_values(self.state, self.execution_state, step_counter as nat, *w, *m)),
            forall|c: Cell, v: nat| #[trigger] gives(step_values(self.state, self.execution_state, step_counter as nat, *w, *m),
                c, v) ==> assigned(r@, c, v),
            m.local matches Some(o) ==> {
                &&& assigned(r@, self.state.local_read_version, o.read_version as nat)
                &&& assigned(r@, self.state.local_write_version, o.write_version as nat)
                &&& assigned(r@, self.state.local_read_value.cells[0], o.read_value[0] as nat)
                &&& assigned(r@, self.state.local_read_value.cells[1], o.read_value[1] as nat)
                &&& assigned(r@, self.state.local_write_value.cells[0], o.write_value[0] as nat)
                &&& assigned(r@, self.state.local_write_value.cells[1], o.write_value[1] as nat)
                &&& assigned(r@, self.state.local_sub_index, o.sub_index as nat)
            },
    {
        let s = &self.state;
        let (odd, pairs) = self.execution_state.assign(w.exec_state);
        let mut out: Vec<(Cell, Fe)> = Vec::new();
        out.push((self.execution_state.target_odd, odd));
        let mut j: usize = 0;
        while j < pairs.len()
            invariant
                j <= pairs@.len(),
                pairs@.len() == self.execution_state.target_pairs@.len(),
                forall|i: int| 0 <= i < pairs@.len() ==> (#[trigger] pairs@[i]).val() == (if i == w.exec_state / 2 { 1nat } else { 0nat }),
                odd.val() == w.exec_state % 2,
                assigns(out@, selector_values(self.execution_state, w.exec_state as nat).take(j as int + 1)),
            decreases pairs.len() - j,
        {
            out.push((self.execution_state.target_pairs[j], pairs[j]));
            proof {
                let e = selector_values(self.execution_state, w.exec_state as nat);
                assert forall|k: int| 0 <= k < out@.len() implies (#[trigger] out@[k]).0 == e.take(j as int + 2)[k].0
                    && out@[k].1.val() == e.take(j as int + 2)[k].1 by {
                    if k < j + 1 {
                        assert(e.take(j as int + 2)[k] == e.take(j as int + 1)[k]);
                    }
                }
            }
            j = j + 1;
        }
        let ghost e0 = selector_values(self.execution_state, w.exec_state as nat);
        proof {
            assert(e0.take(pairs@.len() as int + 1) =~= e0);
        }
        let ghost base = out@;
        push_u128(&mut out, s.step_counter, step_counter as u128);
        push_u128(&mut out, s.clk, w.clk as u128);
        push_u128(&mut out, s.frame_index, w.frame_index as u128);
        push_u128(&mut out, s.module_index, w.module_index as u128);
        push_u128(&mut out, s.function_index, w.function_index as u128);
        push_u128(&mut out, s.pc, w.pc as u128);
        push_u128(&mut out, s.sp, w.sp as u128);
        push_u128(&mut out, s.opcode, w.opcode as u128);
        push_u128(&mut out, s.aux0, w.aux0);
        push_u128(&mut out, s.aux1, w.aux1);
        let ghost mid = out@;
        push_stack_op(&mut out, s.stack_pop_index, s.stack_pop_sub_index, s.stack_pop_value_header, s.stack_pop_version,
            s.stack_pop_value.cells, &m.pop);
        let ghost mid2 = out@;
        push_stack_op(&mut out, s.stack_push_index, s.stack_push_sub_index, s.stack_push_value_header,
            s.stack_push_version, s.stack_push_value.cells, &m.push);
        let ghost mid3 = out@;
        let (fi, ix, si, r0, r1, rh, ri, rv, w0, w1, wh, wi, wv):
            (u64, u64, u128, u128, u128, bool, bool, u64, u128, u128, bool, bool, u64) = match &m.local {
            Some(o) => (o.frame_index, o.index, o.sub_index, o.read_value[0], o.read_value[1], o.read_value_header,
                o.read_value_invalid, o.read_version, o.write_value[0], o.write_value[1], o.write_value_header,
                o.write_value_invalid, o.write_version),
            None => (0, 0, 0, 0, 0, false, false, 0, 0, 0, false, false, 0),
        };
        push_u128(&mut out, s.local_frame_index, fi as u128);
        push_u128(&mut out, s.local_index, ix as u128);
        push_u128(&mut out, s.local_sub_index, si);
        push_u128(&mut out, s.local_read_value.cells[0], r0);
        push_u128(&mut out, s.local_read_value.cells[1], r1);
        out.push((s.local_read_value_header, Fe::from_bool(rh)));
        out.push((s.local_read_value_invalid, Fe::from_bool(ri)));
        push_u128(&mut out, s.local_read_version, rv as u128);
        push_u128(&mut out, s.local_write_value.cells[0], w0);
        push_u128(&mut out, s.local_write_value.cells[1], w1);
        out.push((s.local_write_value_header, Fe::from_bool(wh)));
        out.push((s.local_write_value_invalid, Fe::from_bool(wi)));
        push_u128(&mut out, s.local_write_version, wv as u128);
        proof {
            let e = step_values(self.state, self.execution_state, step_counter as nat, *w, *m);
            let n0 = base.len() as int;
            let n1 = mid.len() as int;
            let n2 = mid2.len() as int;
            let n3 = mid3.len() as int;
            assert(n1 == n0 + 10);
            assert(out@.take(n3) =~= mid3);
            assert(mid3.take(n2) =~= mid2);
            assert(mid2.take(n1) =~= mid);
            let lv = local_op_values(self.state, m.local);
            assert forall|k: int| 0 <= k < out@.len() implies (#[trigger] out@[k]).0 == e[k].0 && out@[k].1.val() == e[k].1 by {
                if k < n0 {
                    assert(out@[k] == mid3[k]);
                    assert(mid3[k] == mid2[k]);
                    assert(mid2[k] == mid[k]);
                    assert(mid.take(n0) =~= base);
                    assert(mid[k] == base[k]);
                    assert(e[k] == e0[k]);
                } else if k < n1 {
                    assert(out@[k] == mid3[k]);
                    assert(mid3[k] == mid2[k]);
                    assert(mid2[k] == mid[k]);
                } else if k < n2 {
                    assert(out@[k] == mid3[k]);
                    assert(mid3[k] == mid2[k]);
                    assert(out@[k] == mid2.skip(n1)[k - n1]);
                } else if k < n3 {
                    assert(out@[k] == mid3[k]);
                    assert(out@[k] == mid3.skip(n2)[k - n2]);
                } else {
                    assert(e[k] == lv[k - n3]);
                }
            }
            lemma_assigns_gives(out@, e);
            lemma_step_values_fields(self.state, self.execution_state, step_counter as nat, *w, *m);
        }
        out
    }

    /// The values of every cell of the step (`assign_exec_step`).
    pub fn assign(&self, step_counter: usize, w: &StepWitness, m: &MemoryOp) -> (r: Vec<(Cell, Fe)>)
        ensures
            assigns(r@, step_values(self.state, self.execution_state, step_counter as nat, *w, *m)),
    {
        self.assign_exec_step(step_counter, w, m)
    }
}

} // verus!
