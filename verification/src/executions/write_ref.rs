use vstd::prelude::*;
use crate::builder::{Constraint, ConstraintBuilder, RowScope, Requirement, Transition, at, byte_range_records,
    e_boolean, e_in_set, fresh_cells, req, transition_records};
use crate::executions::common::{e_opcodes, minus_one, opcode_exprs};
use crate::expr::{Cell, Expression, Witness, e_add, e_cell, e_const, e_mul, e_not, e_sub, eval};
use crate::field::{Fe, fe_sub, lemma_modulus_bounds, modulus};
use crate::math_gadgets::is_zero::{IsZeroGadget, e_is_zero, zero_test};
use crate::opcode::Opcode;
use crate::step::{ExecutionState, Index, StateField, StepState, rotate};
use crate::sub_index::{ExtendedSubIndex, ExtendedSubIndexWitness, Membership, MembershipWitness, membership_witness,
    ext_sub_index_witness, e_depth_pow, e_parent_sub_index, ext_sub_index_polys, limb_exprs, polys_at};
use crate::executions::vec_push_back::{column_cell, fe_diff};

verus! {

/// `WriteRef`, first stage: pops the reference and invalidates the old value,
/// one flattened limb per row. `header_sub_index` keeps the sub index of the
/// referenced value and `header_flen_delta` the number of its limbs; both
/// take the same columns in the three stages.
#[derive(Debug)]
pub struct WriteRefStage1 {
    pub header_sub_index: Cell,
    pub header_flen_delta: Cell,
    pub membership_gadget: Membership<8>,
}

/// The first row of the first stage.
pub open spec fn write_ref_stage1_head(s: StepState, hsi: Cell, delta: Cell) -> Seq<Constraint> {
    seq![
        at(RowScope::First, "opcode in OPCODES", e_in_set(e_cell(s.opcode), e_opcodes(seq![Opcode::WriteRef]))),
        at(RowScope::First, "stack_pop_index(0) == sp(0)", e_sub(e_cell(s.stack_pop_index), e_cell(s.sp))),
        at(RowScope::First, "stack_pop_sub_index(0) == 0", e_cell(s.stack_pop_sub_index)),
        at(RowScope::First, "(local_frame_index(0), local_index(0)) == stack_pop_value(0).index",
            e_sub(Index { frame_index: e_cell(s.local_frame_index), local_index: e_cell(s.local_index) }.spec_expr(),
                e_cell(s.stack_pop_value.cells[0]))),
        at(RowScope::First, "local_sub_index(0) == stack_pop_value(0).sub_index",
            e_sub(e_cell(s.local_sub_index), e_cell(s.stack_pop_value.cells[1]))),
        at(RowScope::First, "step_counter(0) == local_read_value(0).as_header().f_len",
            e_mul(e_cell(s.local_read_value_header), e_sub(e_cell(s.step_counter), e_cell(s.local_read_value.cells[0])))),
        at(RowScope::First, "step_counter(0) == 1",
            e_mul(e_not(e_cell(s.local_read_value_header)), e_sub(e_cell(s.step_counter), e_const(1)))),
        at(RowScope::First, "header_sub_index(0) == local_sub_index(0)", e_sub(e_cell(hsi), e_cell(s.local_sub_index))),
        at(RowScope::First, "header_flen_delta(0) == step_counter(0)", e_sub(e_cell(delta), e_cell(s.step_counter))),
    ]
}

/// All the constraints of the first stage after the bits of the mask.
pub open spec fn write_ref_stage1_constraints(s: StepState, hsi: Cell, delta: Cell, m: Membership<8>) -> Seq<Constraint> {
    write_ref_stage1_head(s, hsi, delta)
    + polys_at(m.spec_polys(e_cell(hsi), e_cell(s.local_sub_index)), RowScope::NotFirst, None)
    + seq![at(RowScope::All, "local_write_version(0) == clk(0)", e_sub(e_cell(s.local_write_version), e_cell(s.clk)))]
}

/// The requirements of the first stage before the move to the next one.
pub open spec fn write_ref_stage1_requirements(s: StepState, hsi: Cell, delta: Cell) -> Seq<crate::builder::RequirementRecord> {
    seq![
        req(RowScope::NotFirst, None, Requirement::NoStackPop),
        req(RowScope::All, None, Requirement::WriteInvalidValue),
        req(RowScope::All, None, Requirement::NoStackPush),
        req(RowScope::All, None, Requirement::CellTransition(s.local_frame_index, Transition::Same)),
        req(RowScope::All, None, Requirement::CellTransition(s.local_index, Transition::Same)),
        req(RowScope::All, None, Requirement::CellTransition(hsi, Transition::Same)),
        req(RowScope::NotLast, None, Requirement::CellTransition(delta, Transition::Same)),
        req(RowScope::NotLast, None, Requirement::StateTransition(StateField::Sp, Transition::Same)),
    ]
}

/// The last row of the first stage keeps the instruction and frees the
/// reference's slot.
pub open spec fn write_ref_stage1_exit() -> Seq<(StateField, Transition)> {
    seq![
        (StateField::Pc, Transition::Same),
        (StateField::Sp, Transition::Delta(minus_one())),
    ]
}

impl WriteRefStage1 {
    #[verifier::rlimit(60)]
    pub fn configure(cb: &mut ConstraintBuilder) -> (r: WriteRefStage1)
        requires
            old(cb).wf(),
            old(cb).scope == RowScope::All,
            old(cb).condition is None,
            old(cb).has_room(83),
        ensures
            final(cb).wf(),
            final(cb).scope == RowScope::All,
            final(cb).condition is None,
            final(cb).curr == old(cb).curr,
            final(cb).next_column == old(cb).next_column + 83,
            r.header_sub_index == column_cell(old(cb).next_column as nat),
            r.header_flen_delta == column_cell((old(cb).next_column + 1) as nat),
            r.membership_gadget.wf(),
            fresh_cells(r.membership_gadget.header_bytes@, (old(cb).next_column + 2) as nat),
            fresh_cells(r.membership_gadget.member_bytes@, (old(cb).next_column + 34) as nat),
            fresh_cells(r.membership_gadget.mask@, (old(cb).next_column + 66) as nat),
            fresh_cells(r.membership_gadget.reverse_header_limbs@, (old(cb).next_column + 74) as nat),
            r.membership_gadget.reverse_header_member_diff == column_cell((old(cb).next_column + 82) as nat),
            final(cb).lookups@.len() == old(cb).lookups@.len() + 64,
            final(cb).lookups@.take(old(cb).lookups@.len() as int) == old(cb).lookups@,
            byte_range_records(final(cb).lookups@.subrange(old(cb).lookups@.len() as int, old(cb).lookups@.len() as int + 32),
                r.membership_gadget.header_bytes@, RowScope::All, None),
            byte_range_records(final(cb).lookups@.skip(old(cb).lookups@.len() as int + 32),
                r.membership_gadget.member_bytes@, RowScope::All, None),
            final(cb).constraints@ == old(cb).constraints@
                + Seq::new(8, |i: int| at(RowScope::All, "Constrain cell to be a bool",
                    e_boolean(e_cell(r.membership_gadget.mask@[i]))))
                + write_ref_stage1_constraints(old(cb).curr, r.header_sub_index, r.header_flen_delta, r.membership_gadget),
            final(cb).requirements@.len() == old(cb).requirements@.len() + 11,
            final(cb).requirements@.take(old(cb).requirements@.len() as int + 8) == old(cb).requirements@
                + write_ref_stage1_requirements(old(cb).curr, r.header_sub_index, r.header_flen_delta),
            ({
                let rec = final(cb).requirements@[old(cb).requirements@.len() as int + 8];
                &&& rec.scope == RowScope::Last
                &&& rec.condition is None
                &&& rec.requirement matches Requirement::NextStates(v) && v@ == seq![ExecutionState::WriteRefStage2]
            }),
            final(cb).requirements@.skip(old(cb).requirements@.len() as int + 9)
                == transition_records(RowScope::Last, None, write_ref_stage1_exit()),
    {
        let s = cb.curr;
        let ghost q0 = cb.requirements@;
        let header_sub_index = cb.query_cell();
        let header_flen_delta = cb.query_cell();
        let membership_gadget = Membership::<8>::construct(cb);
        let ghost c1 = cb.constraints@;

        let prev = cb.scope_begin(RowScope::First);
        let ops = [Opcode::WriteRef];
        cb.require_in_set("opcode in OPCODES", s.opcode.expr(), opcode_exprs(&ops));
        cb.require_equal("stack_pop_index(0) == sp(0)", s.stack_pop_index.expr(), s.sp.expr());
        cb.require_zero("stack_pop_sub_index(0) == 0", s.stack_pop_sub_index.expr());
        let index = Index::new(s.local_frame_index.expr(), s.local_index.expr());
        cb.require_equal(
            "(local_frame_index(0), local_index(0)) == stack_pop_value(0).index",
            index.expr(),
            s.stack_pop_value.as_reference().index(),
        );
        cb.require_equal(
            "local_sub_index(0) == stack_pop_value(0).sub_index",
            s.local_sub_index.expr(),
            s.stack_pop_value.as_reference().sub_index(),
        );
        let c = cb.condition_begin(s.local_read_value_header.expr());
        cb.require_equal(
            "step_counter(0) == local_read_value(0).as_header().f_len",
            s.step_counter.expr(),
            s.local_read_value.as_header().flen(),
        );
        cb.condition_end(c);
        let c = cb.condition_begin(Expression::not(s.local_read_value_header.expr()));
        cb.require_equal("step_counter(0) == 1", s.step_counter.expr(), Expression::constant(1));
        cb.condition_end(c);
        cb.require_equal("header_sub_index(0) == local_sub_index(0)", header_sub_index.expr(), s.local_sub_index.expr());
        cb.require_equal("header_flen_delta(0) == step_counter(0)", header_flen_delta.expr(), s.step_counter.expr());
        cb.scope_end(prev);
        let ghost c2 = cb.constraints@;

        let prev = cb.scope_begin(RowScope::NotFirst);
        membership_gadget.configure(cb, header_sub_index.expr(), s.local_sub_index.expr());
        cb.require_no_stack_pop();
        cb.scope_end(prev);

        cb.require_write_invalid_value();
        cb.require_equal("local_write_version(0) == clk(0)", s.local_write_version.expr(), s.clk.expr());
        cb.require_no_stack_push();
        cb.require_cell_transition(s.local_frame_index, Transition::Same);
        cb.require_cell_transition(s.local_index, Transition::Same);
        cb.require_cell_transition(header_sub_index, Transition::Same);

        let prev = cb.scope_begin(RowScope::NotLast);
        cb.require_cell_transition(header_flen_delta, Transition::Same);
        cb.require_state_transition(StateField::Sp, Transition::Same);
        cb.scope_end(prev);
        let ghost q1 = cb.requirements@;

        let prev = cb.scope_begin(RowScope::Last);
        cb.require_next_state(ExecutionState::WriteRefStage2);
        let ghost q2 = cb.requirements@;
        let exit = vec![
            (StateField::Pc, Transition::Same),
            (StateField::Sp, Transition::Delta(Expression::neg(Expression::constant(1)))),
        ];
        proof {
            assert(exit@ =~= write_ref_stage1_exit());
        }
        cb.require_state_transitions(exit);
        cb.scope_end(prev);
        proof {
            assert(ops@ =~= seq![Opcode::WriteRef]);
            assert(c2 =~= c1 + write_ref_stage1_head(s, header_sub_index, header_flen_delta));
            assert(cb.constraints@ =~= c1 + write_ref_stage1_constraints(s, header_sub_index, header_flen_delta,
                membership_gadget));
            assert(q1 =~= q0 + write_ref_stage1_requirements(s, header_sub_index, header_flen_delta));
            let m = q0.len() as int;
            assert(q2.drop_last() == q1);
            assert forall|i: int| 0 <= i < m + 9 implies #[trigger] cb.requirements@[i] == q2[i] by {}
            assert(cb.requirements@.take(m + 8) =~= q1) by {
                assert forall|i: int| 0 <= i < m + 8 implies #[trigger] cb.requirements@[i] == q1[i] by {
                    assert(q2[i] == q2.drop_last()[i]);
                }
            }
            assert(cb.requirements@.skip(m + 9) =~= transition_records(RowScope::Last, None, write_ref_stage1_exit()));
        }
        WriteRefStage1 { header_sub_index, header_flen_delta, membership_gadget }
    }
}


/// The witness of one row of the first stage of `WriteRef`.
#[derive(Debug)]
pub struct WriteRefStage1Row {
    pub header_sub_index: Fe,
    pub header_flen_delta: Fe,
    pub membership_gadget: MembershipWitness,
}

impl WriteRefStage1 {
    /// The witness of the stage: the referenced value's sub index and the
    /// number of rows at every row, and the membership of each row's local sub
    /// index (from `local_sub_indexes`, one per row) under it.
    pub fn assign(&self, header_sub_index: u128, local_sub_indexes: &Vec<u128>) -> (r: Vec<WriteRefStage1Row>)
        requires
            local_sub_indexes@.len() >= 1,
        ensures
            r@.len() == local_sub_indexes@.len(),
            forall|i: int| 0 <= i < r@.len() ==> {
                let row = #[trigger] r@[i];
                &&& row.header_sub_index.val() == header_sub_index
                &&& row.header_flen_delta.val() == local_sub_indexes@.len()
                &&& membership_witness(8, header_sub_index, local_sub_indexes@[i], row.membership_gadget)
            },
    {
        let rows = local_sub_indexes.len();
        let mut r: Vec<WriteRefStage1Row> = Vec::new();
        let mut i: usize = 0;
        while i < rows
            invariant
                rows == local_sub_indexes@.len(),
                i <= rows,
                r@.len() == i,
                forall|k: int| 0 <= k < i ==> {
                    let row = #[trigger] r@[k];
                    &&& row.header_sub_index.val() == header_sub_index
                    &&& row.header_flen_delta.val() == rows
                    &&& membership_witness(8, header_sub_index, local_sub_indexes@[k], row.membership_gadget)
                },
            decreases rows - i,
        {
            let membership = self.membership_gadget.assign(header_sub_index, local_sub_indexes[i]);
            r.push(WriteRefStage1Row {
                header_sub_index: Fe::from_u128(header_sub_index),
                header_flen_delta: Fe::from_u64(rows as u64),
                membership_gadget: membership,
            });
            i = i + 1;
        }
        r
    }
}

/// `WriteRef`, second stage: pops the new value, one flattened limb per row,
/// and writes it over the invalidated one. Unless the written value is the
/// whole local (sub index zero), the third stage follows.
#[derive(Debug)]
pub struct WriteRefStage2 {
    pub header_sub_index: Cell,
    pub header_flen_delta: Cell,
    pub header_sub_index_ext: ExtendedSubIndex<8>,
    pub is_zero_header_sub_index: IsZeroGadget,
}

/// The constraints of the second stage after those of the extended sub index.
pub open spec fn write_ref_stage2_constraints(s: StepState, hsi: Cell, delta: Cell, ext: ExtendedSubIndex<8>)
    -> Seq<Constraint> {
    let h = e_cell(s.stack_pop_value_header);
    seq![
        at(RowScope::First, "step_counter(0) == stack_pop_value(0).as_header().f_len",
            e_mul(h, e_sub(e_cell(s.step_counter), e_cell(s.stack_pop_value.cells[0])))),
        at(RowScope::First, "step_counter(0) == 1", e_mul(e_not(h), e_sub(e_cell(s.step_counter), e_const(1)))),
        at(RowScope::First, "header_flen_delta(0) == step_counter(0) - header_flen_delta(-1)",
            e_sub(e_cell(delta), e_sub(e_cell(s.step_counter), e_cell(rotate(delta, -1))))),
        at(RowScope::First, "stack_pop_sub_index(0) == 0", e_cell(s.stack_pop_sub_index)),
        at(RowScope::All, "stack_pop_index(0) == sp(0)", e_sub(e_cell(s.stack_pop_index), e_cell(s.sp))),
        at(RowScope::All, "local_sub_index(0) == header_sub_index(0).concat(stack_pop_sub_index(0))",
            e_sub(e_cell(s.local_sub_index),
                e_add(ext.sub_index, e_mul(e_cell(s.stack_pop_sub_index), e_depth_pow(ext.mask@))))),
        at(RowScope::All, "local_write_value(0) == stack_pop_value(0)",
            e_sub(s.local_write_value.spec_expr(), s.stack_pop_value.spec_expr())),
        at(RowScope::All, "local_write_value_header(0) == stack_pop_value_header(0)",
            e_sub(e_cell(s.local_write_value_header), h)),
        at(RowScope::All, "local_write_version(0) == clk(0)", e_sub(e_cell(s.local_write_version), e_cell(s.clk))),
    ]
}

/// The requirements of the second stage before its last row.
pub open spec fn write_ref_stage2_requirements(s: StepState, hsi: Cell, delta: Cell, iz: IsZeroGadget)
    -> Seq<crate::builder::RequirementRecord> {
    seq![
        req(RowScope::All, None, Requirement::ReadInvalidValue),
        req(RowScope::All, None, Requirement::NoStackPush),
        req(RowScope::NotLast, None, Requirement::CellTransition(s.local_frame_index, Transition::Same)),
        req(RowScope::NotLast, None, Requirement::CellTransition(s.local_index, Transition::Same)),
        req(RowScope::NotLast, None, Requirement::CellTransition(hsi, Transition::Same)),
        req(RowScope::NotLast, None, Requirement::CellTransition(delta, Transition::Same)),
        req(RowScope::NotLast, None, Requirement::StateTransition(StateField::Sp, Transition::Same)),
        req(RowScope::Last, None, Requirement::StateTransition(StateField::Sp, Transition::Delta(minus_one()))),
        req(RowScope::Last, Some(e_not(iz.is_zero)), Requirement::StateTransition(StateField::Pc, Transition::Same)),
    ]
}

impl WriteRefStage2 {
    #[verifier::rlimit(60)]
    pub fn configure(cb: &mut ConstraintBuilder) -> (r: WriteRefStage2)
        requires
            old(cb).wf(),
            old(cb).scope == RowScope::All,
            old(cb).condition is None,
            old(cb).has_room(44),
        ensures
            final(cb).wf(),
            final(cb).scope == RowScope::All,
            final(cb).condition is None,
            final(cb).curr == old(cb).curr,
            final(cb).next_column == old(cb).next_column + 44,
            r.header_sub_index == column_cell(old(cb).next_column as nat),
            r.header_flen_delta == column_cell((old(cb).next_column + 1) as nat),
            r.header_sub_index_ext.sub_index == e_cell(r.header_sub_index),
            r.header_sub_index_ext.bytes@.len() == 32,
            fresh_cells(r.header_sub_index_ext.bytes@, (old(cb).next_column + 2) as nat),
            r.header_sub_index_ext.limbs@ == limb_exprs(r.header_sub_index_ext.bytes@, 8),
            r.header_sub_index_ext.mask@.len() == 8,
            fresh_cells(r.header_sub_index_ext.mask@, (old(cb).next_column + 34) as nat),
            r.header_sub_index_ext.reverse_limb == column_cell((old(cb).next_column + 42) as nat),
            r.is_zero_header_sub_index.inverse == column_cell((old(cb).next_column + 43) as nat),
            r.is_zero_header_sub_index.value == e_cell(r.header_sub_index),
            r.is_zero_header_sub_index.is_zero == e_is_zero(e_cell(r.header_sub_index), r.is_zero_header_sub_index.inverse),
            final(cb).lookups@.len() == old(cb).lookups@.len() + 32,
            final(cb).lookups@.take(old(cb).lookups@.len() as int) == old(cb).lookups@,
            byte_range_records(final(cb).lookups@.skip(old(cb).lookups@.len() as int), r.header_sub_index_ext.bytes@,
                RowScope::All, None),
            final(cb).constraints@ == old(cb).constraints@
                + Seq::new(8, |i: int| at(RowScope::All, "Constrain cell to be a bool",
                    e_boolean(e_cell(r.header_sub_index_ext.mask@[i]))))
                + polys_at(ext_sub_index_polys(8, r.header_sub_index_ext.sub_index, r.header_sub_index_ext.limbs@,
                    r.header_sub_index_ext.mask@, r.header_sub_index_ext.reverse_limb), RowScope::All, None)
                + write_ref_stage2_constraints(old(cb).curr, r.header_sub_index, r.header_flen_delta, r.header_sub_index_ext),
            final(cb).requirements@.len() == old(cb).requirements@.len() + 12,
            ({
                let rec = final(cb).requirements@[old(cb).requirements@.len() as int];
                &&& rec.scope == RowScope::First
                &&& rec.condition is None
                &&& rec.requirement matches Requirement::PrevStates(v) && v@ == seq![ExecutionState::WriteRefStage1]
            }),
            final(cb).requirements@.take(old(cb).requirements@.len() as int) == old(cb).requirements@,
            final(cb).requirements@.subrange(old(cb).requirements@.len() as int + 1, old(cb).requirements@.len() as int + 10)
                == write_ref_stage2_requirements(old(cb).curr, r.header_sub_index, r.header_flen_delta,
                    r.is_zero_header_sub_index),
            ({
                let rec = final(cb).requirements@[old(cb).requirements@.len() as int + 10];
                &&& rec.scope == RowScope::Last
                &&& rec.condition == Some(e_not(r.is_zero_header_sub_index.is_zero))
                &&& rec.requirement matches Requirement::NextStates(v) && v@ == seq![ExecutionState::WriteRefStage3]
            }),
            final(cb).requirements@[old(cb).requirements@.len() as int + 11] == req(RowScope::Last,
                Some(r.is_zero_header_sub_index.is_zero), Requirement::StateTransition(StateField::Pc,
                Transition::Delta(e_const(1)))),
    {
        let s = cb.curr;
        let ghost l0 = cb.lookups@;
        let ghost q0 = cb.requirements@;
        let header_sub_index = cb.query_cell();
        let header_flen_delta = cb.query_cell();
        let ext = ExtendedSubIndex::<8>::construct(cb, header_sub_index.expr());
        let is_zero_header_sub_index = IsZeroGadget::construct(cb, header_sub_index.expr());
        let ghost c1 = cb.constraints@;

        let prev = cb.scope_begin(RowScope::First);
        cb.require_prev_state(ExecutionState::WriteRefStage1);
        let ghost qa = cb.requirements@;
        let c = cb.condition_begin(s.stack_pop_value_header.expr());
        cb.require_equal(
            "step_counter(0) == stack_pop_value(0).as_header().f_len",
            s.step_counter.expr(),
            s.stack_pop_value.as_header().flen(),
        );
        cb.condition_end(c);
        let c = cb.condition_begin(Expression::not(s.stack_pop_value_header.expr()));
        cb.require_equal("step_counter(0) == 1", s.step_counter.expr(), Expression::constant(1));
        cb.condition_end(c);
        cb.require_equal(
            "header_flen_delta(0) == step_counter(0) - header_flen_delta(-1)",
            header_flen_delta.expr(),
            Expression::sub(s.step_counter.expr(), header_flen_delta.at_offset(-1).expr()),
        );
        cb.require_zero("stack_pop_sub_index(0) == 0", s.stack_pop_sub_index.expr());
        cb.scope_end(prev);

        cb.require_equal("stack_pop_index(0) == sp(0)", s.stack_pop_index.expr(), s.sp.expr());
        cb.require_equal(
            "local_sub_index(0) == header_sub_index(0).concat(stack_pop_sub_index(0))",
            s.local_sub_index.expr(),
            ext.concat(s.stack_pop_sub_index.expr()),
        );
        cb.require_read_invalid_value();
        cb.require_equal("local_write_value(0) == stack_pop_value(0)", s.local_write_value.expr(), s.stack_pop_value.expr());
        cb.require_equal(
            "local_write_value_header(0) == stack_pop_value_header(0)",
            s.local_write_value_header.expr(),
            s.stack_pop_value_header.expr(),
        );
        cb.require_equal("local_write_version(0) == clk(0)", s.local_write_version.expr(), s.clk.expr());
        cb.require_no_stack_push();

        let prev = cb.scope_begin(RowScope::NotLast);
        cb.require_cell_transition(s.local_frame_index, Transition::Same);
        cb.require_cell_transition(s.local_index, Transition::Same);
        cb.require_cell_transition(header_sub_index, Transition::Same);
        cb.require_cell_transition(header_flen_delta, Transition::Same);
        cb.require_state_transition(StateField::Sp, Transition::Same);
        cb.scope_end(prev);

        let prev = cb.scope_begin(RowScope::Last);
        cb.require_state_transition(StateField::Sp, Transition::Delta(Expression::neg(Expression::constant(1))));
        let c = cb.condition_begin(Expression::sub(Expression::constant(1), is_zero_header_sub_index.expr()));
        cb.require_state_transition(StateField::Pc, Transition::Same);
        let ghost q1 = cb.requirements@;
        cb.require_next_state(ExecutionState::WriteRefStage3);
        let ghost q2 = cb.requirements@;
        cb.condition_end(c);
        let c = cb.condition_begin(is_zero_header_sub_index.expr());
        cb.require_state_transition(StateField::Pc, Transition::Delta(Expression::constant(1)));
        cb.condition_end(c);
        cb.scope_end(prev);
        proof {
            let k = l0.len() as int;
            assert(cb.constraints@ =~= c1 + write_ref_stage2_constraints(s, header_sub_index, header_flen_delta, ext));
            let m = q0.len() as int;
            assert(qa.drop_last() == q0);
            assert(q1.subrange(m + 1, m + 10) =~= write_ref_stage2_requirements(s, header_sub_index, header_flen_delta,
                is_zero_header_sub_index));
            assert(q2.drop_last() == q1);
            assert forall|i: int| 0 <= i < m + 11 implies #[trigger] cb.requirements@[i] == q2[i] by {}
            assert forall|i: int| 0 <= i < m + 10 implies #[trigger] q2[i] == q1[i] by {
                assert(q2[i] == q2.drop_last()[i]);
            }
            assert forall|i: int| 0 <= i < m + 1 implies #[trigger] q1[i] == qa[i] by {}
            assert(cb.requirements@.take(m) =~= q0) by {
                assert forall|i: int| 0 <= i < m implies #[trigger] cb.requirements@[i] == q0[i] by {
                    assert(qa[i] == qa.drop_last()[i]);
                }
            }
            assert(cb.requirements@.subrange(m + 1, m + 10) =~= q1.subrange(m + 1, m + 10));
        }
        WriteRefStage2 { header_sub_index, header_flen_delta, header_sub_index_ext: ext, is_zero_header_sub_index }
    }
}


/// The witness of one row of the second or third stage of `WriteRef`.
#[derive(Debug)]
pub struct WriteRefRow {
    pub header_sub_index: Fe,
    pub header_flen_delta: Fe,
    pub header_sub_index_ext: ExtendedSubIndexWitness,
    /// The inverse and the result of the zero test of the stage.
    pub is_zero: (Fe, Fe),
}

impl WriteRefStage2 {
    /// The witness of each of the `rows` rows: the sub index of the first
    /// stage, `header_sub_index`, and the number of limbs of the new value
    /// less those of the old, `header_flen_delta_prev_stage` (what the first
    /// stage's last row holds).
    pub fn assign(&self, header_sub_index: &Fe, header_flen_delta_prev_stage: &Fe, rows: usize) -> (r: Vec<WriteRefRow>)
        requires
            rows <= u64::MAX,
        ensures
            r@.len() == rows,
            forall|i: int| 0 <= i < rows ==> {
                let row = #[trigger] r@[i];
                &&& row.header_sub_index == *header_sub_index
                &&& row.header_flen_delta.val() == fe_diff(rows as nat, header_flen_delta_prev_stage.val())
                &&& ext_sub_index_witness(header_sub_index.val(), row.header_sub_index_ext)
                &&& zero_test(header_sub_index.val(), row.is_zero)
            },
    {
        let delta = fe_sub(&Fe::from_u64(rows as u64), header_flen_delta_prev_stage);
        let mut r: Vec<WriteRefRow> = Vec::new();
        let mut i: usize = 0;
        while i < rows
            invariant
                i <= rows,
                r@.len() == i,
                delta.val() == fe_diff(rows as nat, header_flen_delta_prev_stage.val()),
                forall|k: int| 0 <= k < i ==> {
                    let row = #[trigger] r@[k];
                    &&& row.header_sub_index == *header_sub_index
                    &&& row.header_flen_delta.val() == fe_diff(rows as nat, header_flen_delta_prev_stage.val())
                    &&& ext_sub_index_witness(header_sub_index.val(), row.header_sub_index_ext)
                    &&& zero_test(header_sub_index.val(), row.is_zero)
                },
            decreases rows - i,
        {
            let is_zero = self.is_zero_header_sub_index.assign(header_sub_index);
            let ext = self.header_sub_index_ext.assign(header_sub_index);
            r.push(WriteRefRow {
                header_sub_index: *header_sub_index,
                header_flen_delta: delta,
                header_sub_index_ext: ext,
                is_zero,
            });
            i = i + 1;
        }
        r
    }
}

/// `WriteRef`, third stage: walks up from the written value to the root of
/// the local, one row per level, growing each header's flattened length by
/// the change in the written value's.
#[derive(Debug)]
pub struct WriteRefStage3 {
    pub header_sub_index: Cell,
    pub header_flen_delta: Cell,
    pub header_sub_index_ext: ExtendedSubIndex<8>,
    pub is_zero_gadget: IsZeroGadget,
}

/// The constraints of the third stage after those of the extended sub index.
pub open spec fn write_ref_stage3_constraints(s: StepState, hsi: Cell, delta: Cell, ext: ExtendedSubIndex<8>,
    iz: IsZeroGadget) -> Seq<Constraint> {
    let p = s.spec_at_offset(-1);
    seq![
        at(RowScope::First, "header_flen_delta(0) == header_flen_delta(-1)", e_sub(e_cell(delta), e_cell(rotate(delta, -1)))),
        at(RowScope::First, "local_frame_index(0) == local_frame_index(-1)",
            e_sub(e_cell(s.local_frame_index), e_cell(p.local_frame_index))),
        at(RowScope::First, "local_index(0) == local_index(-1)", e_sub(e_cell(s.local_index), e_cell(p.local_index))),
        at(RowScope::All, "header_sub_index(0) == header_sub_index(-1).parent",
            e_sub(e_cell(hsi), e_parent_sub_index(ext.limbs@, ext.mask@))),
        at(RowScope::All, "header_sub_index(0) != header_sub_index(-1)", iz.is_zero),
        at(RowScope::All, "local_sub_index(0) == header_sub_index(0)", e_sub(e_cell(s.local_sub_index), e_cell(hsi))),
        at(RowScope::All,
            "local_write_value(0).as_header().flen == local_read_value(0).as_header().flen + header_flen_delta(0)",
            e_sub(e_cell(s.local_write_value.cells[0]), e_add(e_cell(s.local_read_value.cells[0]), e_cell(delta)))),
        at(RowScope::All, "local_write_value_header(0) == local_read_value_header(0)",
            e_sub(e_cell(s.local_write_value_header), e_cell(s.local_read_value_header))),
        at(RowScope::All, "local_write_value_invalid(0) == local_read_value_invalid(0)",
            e_sub(e_cell(s.local_write_value_invalid), e_cell(s.local_read_value_invalid))),
        at(RowScope::All, "local_write_version(0) == clk(0)", e_sub(e_cell(s.local_write_version), e_cell(s.clk))),
        at(RowScope::Last, "header_sub_index(0) == 0", e_cell(hsi)),
    ]
}

/// The requirements of the third stage after the one on the stage before.
pub open spec fn write_ref_stage3_requirements(s: StepState, delta: Cell) -> Seq<crate::builder::RequirementRecord> {
    seq![
        req(RowScope::All, None, Requirement::NoStackPop),
        req(RowScope::All, None, Requirement::NoStackPush),
        req(RowScope::All, None, Requirement::StateTransition(StateField::Sp, Transition::Same)),
        req(RowScope::NotLast, None, Requirement::CellTransition(delta, Transition::Same)),
        req(RowScope::NotLast, None, Requirement::CellTransition(s.local_frame_index, Transition::Same)),
        req(RowScope::NotLast, None, Requirement::CellTransition(s.local_index, Transition::Same)),
        req(RowScope::Last, None, Requirement::StateTransition(StateField::Pc, Transition::Delta(e_const(1)))),
    ]
}

impl WriteRefStage3 {
    #[verifier::rlimit(60)]
    pub fn configure(cb: &mut ConstraintBuilder) -> (r: WriteRefStage3)
        requires
            old(cb).wf(),
            old(cb).scope == RowScope::All,
            old(cb).condition is None,
            old(cb).has_room(44),
        ensures
            final(cb).wf(),
            final(cb).scope == RowScope::All,
            final(cb).condition is None,
            final(cb).curr == old(cb).curr,
            final(cb).next_column == old(cb).next_column + 44,
            r.header_sub_index == column_cell(old(cb).next_column as nat),
            r.header_flen_delta == column_cell((old(cb).next_column + 1) as nat),
            r.header_sub_index_ext.sub_index == e_cell(rotate(r.header_sub_index, -1)),
            r.header_sub_index_ext.bytes@.len() == 32,
            fresh_cells(r.header_sub_index_ext.bytes@, (old(cb).next_column + 2) as nat),
            r.header_sub_index_ext.limbs@ == limb_exprs(r.header_sub_index_ext.bytes@, 8),
            r.header_sub_index_ext.mask@.len() == 8,
            fresh_cells(r.header_sub_index_ext.mask@, (old(cb).next_column + 34) as nat),
            r.header_sub_index_ext.reverse_limb == column_cell((old(cb).next_column + 42) as nat),
            r.is_zero_gadget.inverse == column_cell((old(cb).next_column + 43) as nat),
            r.is_zero_gadget.value == e_sub(e_cell(rotate(r.header_sub_index, -1)), e_cell(r.header_sub_index)),
            r.is_zero_gadget.is_zero == e_is_zero(r.is_zero_gadget.value, r.is_zero_gadget.inverse),
            final(cb).lookups@.len() == old(cb).lookups@.len() + 32,
            final(cb).lookups@.take(old(cb).lookups@.len() as int) == old(cb).lookups@,
            byte_range_records(final(cb).lookups@.skip(old(cb).lookups@.len() as int), r.header_sub_index_ext.bytes@,
                RowScope::All, None),
            final(cb).constraints@ == old(cb).constraints@
                + Seq::new(8, |i: int| at(RowScope::All, "Constrain cell to be a bool",
                    e_boolean(e_cell(r.header_sub_index_ext.mask@[i]))))
                + polys_at(ext_sub_index_polys(8, r.header_sub_index_ext.sub_index, r.header_sub_index_ext.limbs@,
                    r.header_sub_index_ext.mask@, r.header_sub_index_ext.reverse_limb), RowScope::All, None)
                + write_ref_stage3_constraints(old(cb).curr, r.header_sub_index, r.header_flen_delta,
                    r.header_sub_index_ext, r.is_zero_gadget),
            final(cb).requirements@.len() == old(cb).requirements@.len() + 8,
            final(cb).requirements@.take(old(cb).requirements@.len() as int) == old(cb).requirements@,
            ({
                let rec = final(cb).requirements@[old(cb).requirements@.len() as int];
                &&& rec.scope == RowScope::First
                &&& rec.condition is None
                &&& rec.requirement matches Requirement::PrevStates(v) && v@ == seq![ExecutionState::WriteRefStage2]
            }),
            final(cb).requirements@.skip(old(cb).requirements@.len() as int + 1)
                == write_ref_stage3_requirements(old(cb).curr, r.header_flen_delta),
    {
        let s = cb.curr;
        let p = cb.step_state_at_offset(-1);
        let ghost q0 = cb.requirements@;
        let header_sub_index = cb.query_cell();
        let header_flen_delta = cb.query_cell();
        let header_sub_index_prev = header_sub_index.at_offset(-1).expr();
        let ext = ExtendedSubIndex::<8>::construct(cb, header_sub_index_prev.copy());
        let is_zero_gadget = IsZeroGadget::construct(cb, Expression::sub(header_sub_index_prev, header_sub_index.expr()));
        let ghost c1 = cb.constraints@;

        let prev = cb.scope_begin(RowScope::First);
        cb.require_prev_state(ExecutionState::WriteRefStage2);
        let ghost qa = cb.requirements@;
        cb.require_equal(
            "header_flen_delta(0) == header_flen_delta(-1)",
            header_flen_delta.expr(),
            header_flen_delta.at_offset(-1).expr(),
        );
        cb.require_equal(
            "local_frame_index(0) == local_frame_index(-1)",
            s.local_frame_index.expr(),
            p.local_frame_index.expr(),
        );
        cb.require_equal("local_index(0) == local_index(-1)", s.local_index.expr(), p.local_index.expr());
        cb.scope_end(prev);

        cb.require_no_stack_pop();
        cb.require_no_stack_push();
        cb.require_equal(
            "header_sub_index(0) == header_sub_index(-1).parent",
            header_sub_index.expr(),
            ext.get_parent_sub_index(),
        );
        cb.require_zero("header_sub_index(0) != header_sub_index(-1)", is_zero_gadget.expr());
        cb.require_equal("local_sub_index(0) == header_sub_index(0)", s.local_sub_index.expr(), header_sub_index.expr());
        cb.require_equal(
            "local_write_value(0).as_header().flen == local_read_value(0).as_header().flen + header_flen_delta(0)",
            s.local_write_value.as_header().flen(),
            Expression::add(s.local_read_value.as_header().flen(), header_flen_delta.expr()),
        );
        cb.require_equal(
            "local_write_value_header(0) == local_read_value_header(0)",
            s.local_write_value_header.expr(),
            s.local_read_value_header.expr(),
        );
        cb.require_equal(
            "local_write_value_invalid(0) == local_read_value_invalid(0)",
            s.local_write_value_invalid.expr(),
            s.local_read_value_invalid.expr(),
        );
        cb.require_equal("local_write_version(0) == clk(0)", s.local_write_version.expr(), s.clk.expr());
        cb.require_state_transition(StateField::Sp, Transition::Same);

        let prev = cb.scope_begin(RowScope::NotLast);
        cb.require_cell_transition(header_flen_delta, Transition::Same);
        cb.require_cell_transition(s.local_frame_index, Transition::Same);
        cb.require_cell_transition(s.local_index, Transition::Same);
        cb.scope_end(prev);

        let prev = cb.scope_begin(RowScope::Last);
        cb.require_zero("header_sub_index(0) == 0", header_sub_index.expr());
        cb.require_state_transition(StateField::Pc, Transition::Delta(Expression::constant(1)));
        cb.scope_end(prev);
        proof {
            assert(cb.constraints@ =~= c1 + write_ref_stage3_constraints(s, header_sub_index, header_flen_delta, ext,
                is_zero_gadget));
            let m = q0.len() as int;
            assert(qa.drop_last() == q0);
            assert forall|i: int| 0 <= i < m + 1 implies #[trigger] cb.requirements@[i] == qa[i] by {}
            assert(cb.requirements@.take(m) =~= q0) by {
                assert forall|i: int| 0 <= i < m implies #[trigger] cb.requirements@[i] == q0[i] by {
                    assert(qa[i] == qa.drop_last()[i]);
                }
            }
            assert(cb.requirements@.skip(m + 1) =~= write_ref_stage3_requirements(s, header_flen_delta));
        }
        WriteRefStage3 { header_sub_index, header_flen_delta, header_sub_index_ext: ext, is_zero_gadget }
    }

    /// The witness of the stage: one row per header on the way up, whose sub
    /// indexes are `local_sub_indexes`; each row also holds the sub index of
    /// the row above (`header_sub_index_prev_stage` at the first row) and the
    /// change in flattened length that the second stage found.
    pub fn assign(&self, header_sub_index_prev_stage: &Fe, header_flen_delta_prev_stage: &Fe, local_sub_indexes: &Vec<Fe>)
        -> (r: Vec<WriteRefRow>)
        ensures
            r@.len() == local_sub_indexes@.len(),
            forall|i: int| 0 <= i < r@.len() ==> {
                let row = #[trigger] r@[i];
                let above = if i == 0 { *header_sub_index_prev_stage } else { local_sub_indexes@[i - 1] };
                &&& row.header_sub_index == local_sub_indexes@[i]
                &&& row.header_flen_delta == *header_flen_delta_prev_stage
                &&& ext_sub_index_witness(above.val(), row.header_sub_index_ext)
                &&& zero_test(fe_diff(above.val(), local_sub_indexes@[i].val()), row.is_zero)
            },
    {
        let mut r: Vec<WriteRefRow> = Vec::new();
        let mut i: usize = 0;
        while i < local_sub_indexes.len()
            invariant
                i <= local_sub_indexes@.len(),
                r@.len() == i,
                forall|k: int| 0 <= k < i ==> {
                    let row = #[trigger] r@[k];
                    let above = if k == 0 { *header_sub_index_prev_stage } else { local_sub_indexes@[k - 1] };
                    &&& row.header_sub_index == local_sub_indexes@[k]
                    &&& row.header_flen_delta == *header_flen_delta_prev_stage
                    &&& ext_sub_index_witness(above.val(), row.header_sub_index_ext)
                    &&& zero_test(fe_diff(above.val(), local_sub_indexes@[k].val()), row.is_zero)
                },
            decreases local_sub_indexes.len() - i,
        {
            let above = if i == 0 { *header_sub_index_prev_stage } else { local_sub_indexes[i - 1] };
            let diff = fe_sub(&above, &local_sub_indexes[i]);
            let is_zero = self.is_zero_gadget.assign(&diff);
            let ext = self.header_sub_index_ext.assign(&above);
            r.push(WriteRefRow {
                header_sub_index: local_sub_indexes[i],
                header_flen_delta: *header_flen_delta_prev_stage,
                header_sub_index_ext: ext,
                is_zero,
            });
            i = i + 1;
        }
        r
    }
}


/// On a row of the third stage where the required zero of
/// `header_sub_index(0) != header_sub_index(-1)` holds, the header's sub index
/// differs from the one of the row above: the walk moves at every row. The
/// inverse cell alone carries this, whatever else holds.
pub proof fn lemma_write_ref_walk_moves(hsi: Cell, iz: IsZeroGadget, w: Witness, row: int)
    requires
        iz.value == e_sub(e_cell(rotate(hsi, -1)), e_cell(hsi)),
        iz.is_zero == e_is_zero(iz.value, iz.inverse),
        eval(iz.is_zero, w, row) % (modulus() as int) == 0,
    ensures
        eval(e_cell(rotate(hsi, -1)), w, row) % (modulus() as int) != eval(e_cell(hsi), w, row) % (modulus() as int),
{
    let p = modulus() as int;
    lemma_modulus_bounds();
    reveal_with_fuel(eval, 4);
    let a = eval(e_cell(rotate(hsi, -1)), w, row);
    let b = eval(e_cell(hsi), w, row);
    let i = eval(e_cell(iz.inverse), w, row);
    assert(eval(iz.value, w, row) == a - b);
    assert(eval(e_mul(iz.value, e_cell(iz.inverse)), w, row) == (a - b) * i);
    assert(eval(iz.is_zero, w, row) == 1 - (a - b) * i);
    if a % p == b % p {
        vstd::arithmetic::div_mod::lemma_sub_mod_noop(a, b, p);
        assert((a - b) % p == 0) by {
            assert((a % p - b % p) == 0);
            assert(0int % p == 0);
        }
        vstd::arithmetic::div_mod::lemma_mul_mod_noop_left(a - b, i, p);
        assert(((a - b) % p) * i == 0);
        assert(0int % p == 0);
        assert(((a - b) * i) % p == 0);
        vstd::arithmetic::div_mod::lemma_sub_mod_noop(1, (a - b) * i, p);
        vstd::arithmetic::div_mod::lemma_small_mod(1, p as nat);
        assert((1 - (a - b) * i) % p == (1 - 0) % p);
        assert(false);
    }
}

} // verus!
