use vstd::prelude::*;
use crate::builder::{Constraint, ConstraintBuilder, RequirementRecord, RowScope, Requirement, Transition, at,
    byte_range_records, e_boolean, fresh_cells, req, transition_records};
use crate::executions::common::{minus_one, same_location, same_location_vec};
use crate::expr::{Cell, Expression, e_add, e_cell, e_const, e_mul, e_not, e_sub};
use crate::opcode::Opcode;
use crate::step::{ExecutionState, Index, StateField, StepState};
use crate::sub_index::{DEPTH_POW_OF_ONE_LEVEL, ExtendedSubIndex, e_depth_pow, ext_sub_index_polys, limb_exprs,
    polys_at};

verus! {

/// The first stage of `VecSwap`: pops the two indices (at the first two rows)
/// and the vector reference (at the last), and keeps the indices in cells for
/// the stages that follow.
#[derive(Debug)]
#[allow(non_camel_case_types)]
pub struct VecSwapStage_1 {
    pub index1: Cell,
    pub index2: Cell,
}

pub open spec fn vec_swap_stage1_constraints(s: StepState, p1: StepState, p2: StepState, index1: Cell, index2: Cell)
    -> Seq<Constraint> {
    seq![
        at(RowScope::First, "opcode", e_sub(e_cell(s.opcode), e_const(Opcode::VecSwap.spec_index() as u128))),
        at(RowScope::First, "step_counter(0)==3", e_sub(e_cell(s.step_counter), e_const(3))),
        at(RowScope::All, "stack_pop_index(0) == sp(0)", e_sub(e_cell(s.stack_pop_index), e_cell(s.sp))),
        at(RowScope::All, "stack_pop_sub_index(0) == 0", e_cell(s.stack_pop_sub_index)),
        at(RowScope::All, "stack_pop_value_header(0) == false", e_cell(s.stack_pop_value_header)),
        at(RowScope::Last, "index1(0) == stack_pop_value(-1)", e_sub(e_cell(index1), e_cell(p1.stack_pop_value.cells[0]))),
        at(RowScope::Last, "index2(0) == stack_pop_value(-2)", e_sub(e_cell(index2), e_cell(p2.stack_pop_value.cells[0]))),
    ]
}

/// The location of the instruction carries over and one stack slot is freed
/// at each row.
pub open spec fn vec_swap_stage1_moves() -> Seq<(StateField, Transition)> {
    same_location().push((StateField::Sp, Transition::Delta(minus_one())))
}

impl VecSwapStage_1 {
    pub fn configure(cb: &mut ConstraintBuilder) -> (r: Self)
        requires
            old(cb).wf(),
            old(cb).scope == RowScope::All,
            old(cb).condition is None,
            old(cb).has_room(2),
        ensures
            final(cb).wf(),
            final(cb).scope == RowScope::All,
            final(cb).condition is None,
            final(cb).curr == old(cb).curr,
            final(cb).next_column == old(cb).next_column + 2,
            r.index1 == (Cell { column: old(cb).next_column, rotation: 0 }),
            r.index2 == (Cell { column: (old(cb).next_column + 1) as usize, rotation: 0 }),
            final(cb).lookups == old(cb).lookups,
            final(cb).constraints@ == old(cb).constraints@ + vec_swap_stage1_constraints(old(cb).curr,
                old(cb).curr.spec_at_offset(-1), old(cb).curr.spec_at_offset(-2), r.index1, r.index2),
            final(cb).requirements@.len() == old(cb).requirements@.len() + 13,
            final(cb).requirements@.take(old(cb).requirements@.len() as int + 10) == old(cb).requirements@ + seq![
                req(RowScope::All, None, Requirement::NoStackPush),
                req(RowScope::All, None, Requirement::NoLocalOp),
            ] + transition_records(RowScope::All, None, vec_swap_stage1_moves()),
            final(cb).requirements@[old(cb).requirements@.len() as int + 10].scope == RowScope::Last,
            final(cb).requirements@[old(cb).requirements@.len() as int + 10].condition is None,
            final(cb).requirements@[old(cb).requirements@.len() as int + 10].requirement matches Requirement::NextStates(v)
                && v@ == seq![ExecutionState::VecSwapStage2],
            final(cb).requirements@.skip(old(cb).requirements@.len() as int + 11) == seq![
                req(RowScope::Last, None, Requirement::CellTransition(r.index1, Transition::Same)),
                req(RowScope::Last, None, Requirement::CellTransition(r.index2, Transition::Same)),
            ],
    {
        let index1 = cb.query_cell();
        let index2 = cb.query_cell();
        let s = cb.curr;
        let prev = cb.scope_begin(RowScope::First);
        cb.require_equal("opcode", s.opcode.expr(), Expression::constant(Opcode::VecSwap.index() as u128));
        cb.require_equal("step_counter(0)==3", s.step_counter.expr(), Expression::constant(3));
        cb.scope_end(prev);
        cb.require_equal("stack_pop_index(0) == sp(0)", s.stack_pop_index.expr(), s.sp.expr());
        cb.require_zero("stack_pop_sub_index(0) == 0", s.stack_pop_sub_index.expr());
        cb.require_zero("stack_pop_value_header(0) == false", s.stack_pop_value_header.expr());
        cb.require_no_stack_push();
        cb.require_no_local_op();
        let p1 = cb.step_state_at_offset(-1);
        let p2 = cb.step_state_at_offset(-2);
        let prev = cb.scope_begin(RowScope::Last);
        cb.require_equal("index1(0) == stack_pop_value(-1)", index1.expr(), p1.stack_pop_value.as_integer().lo());
        cb.require_equal("index2(0) == stack_pop_value(-2)", index2.expr(), p2.stack_pop_value.as_integer().lo());
        cb.scope_end(prev);
        let mut moves = same_location_vec();
        moves.push((StateField::Sp, Transition::Delta(Expression::neg(Expression::constant(1)))));
        proof {
            assert(moves@ =~= vec_swap_stage1_moves());
        }
        cb.require_state_transitions(moves);
        let ghost m0 = cb.requirements@;
        let prev = cb.scope_begin(RowScope::Last);
        cb.require_next_state(ExecutionState::VecSwapStage2);
        let ghost m1 = cb.requirements@;
        cb.require_cell_transition(index1, Transition::Same);
        cb.require_cell_transition(index2, Transition::Same);
        cb.scope_end(prev);
        proof {
            let k = old(cb).requirements@.len() as int;
            assert(m0 =~= old(cb).requirements@ + seq![
                req(RowScope::All, None, Requirement::NoStackPush),
                req(RowScope::All, None, Requirement::NoLocalOp),
            ] + transition_records(RowScope::All, None, vec_swap_stage1_moves()));
            assert(m1.drop_last() == m0);
            assert(cb.requirements@.take(k + 11) =~= m1);
            assert(cb.requirements@.take(k + 10) =~= m0) by {
                assert(cb.requirements@.take(k + 10) =~= m1.take(k + 10));
                assert(m1.take(k + 10) =~= m1.drop_last());
            }
            assert(cb.requirements@[k + 10] == m1[k + 10]);
            assert(cb.requirements@.skip(k + 11) =~= seq![
                req(RowScope::Last, None, Requirement::CellTransition(index1, Transition::Same)),
                req(RowScope::Last, None, Requirement::CellTransition(index2, Transition::Same)),
            ]);
            assert(cb.constraints@ =~= old(cb).constraints@ + vec_swap_stage1_constraints(s, p1, p2, index1, index2));
        }
        VecSwapStage_1 { index1, index2 }
    }
}

/// Stage 2 (`TWO`) or 3 of `VecSwap`: reads the element at `index1` (stage 2)
/// or `index2` (stage 3) of the referenced vector, one flattened limb per row,
/// pushes it and leaves the element invalid.
#[derive(Debug)]
#[allow(non_camel_case_types)]
pub struct VecSwapStage_2_Or_3<const TWO: bool> {
    pub index1: Cell,
    pub index2: Cell,
    pub ref_local_sub_index: Cell,
    pub extended_sub_index: ExtendedSubIndex<8>,
}

/// `local_sub_index == concat(ref_sub_index, index + sub_index * 2^16)`.
pub open spec fn e_element_sub_index(s: StepState, ext: ExtendedSubIndex<8>, index: Cell, sub_index: Cell) -> Expression {
    e_sub(e_cell(s.local_sub_index), e_add(ext.sub_index, e_mul(
        e_add(e_cell(index), e_mul(e_cell(sub_index), e_const(DEPTH_POW_OF_ONE_LEVEL as u128))),
        e_depth_pow(ext.mask@))))
}

pub open spec fn vec_swap_stage23_constraints(two: bool, s: StepState, p: StepState, index1: Cell, index2: Cell,
    ref_sub: Cell, ext: ExtendedSubIndex<8>) -> Seq<Constraint> {
    let h = e_cell(s.stack_push_value_header);
    let head = seq![
        at(RowScope::All, "stack_push_index(0) == sp(0)+1", e_sub(e_cell(s.stack_push_index), e_add(e_cell(s.sp), e_const(1)))),
        at(RowScope::First, "stack_push_sub_index(0)==0", e_cell(s.stack_push_sub_index)),
        at(RowScope::First, "step_counter(0) == stack_push_value(0).flen",
            e_mul(h, e_sub(e_cell(s.step_counter), e_cell(s.stack_push_value.cells[0])))),
        at(RowScope::First, "step_counter(0) == 1", e_mul(e_not(h), e_sub(e_cell(s.step_counter), e_const(1)))),
    ];
    let look_back = if two {
        seq![
            at(RowScope::First, "(local_frame_index(0), local_index(0)) == stack_pop_value(-1).as_reference().index()",
                e_sub(Index { frame_index: e_cell(s.local_frame_index), local_index: e_cell(s.local_index) }.spec_expr(),
                    e_cell(p.stack_pop_value.cells[0]))),
            at(RowScope::First, "ref_local_sub_index(0) == stack_pop_value(-1).as_reference().sub_index()",
                e_sub(e_cell(ref_sub), e_cell(p.stack_pop_value.cells[1]))),
        ]
    } else {
        seq![]
    };
    let tail = seq![
        if two {
            at(RowScope::All, "local_sub_index(0) == concat(ref_local_sub_index(0),index1,nonzero(stack_push_sub_index(0)))",
                e_element_sub_index(s, ext, index1, s.stack_push_sub_index))
        } else {
            at(RowScope::All, "local_sub_index(0) == concat(ref_local_sub_index(0),index2,nonzero(stack_push_sub_index(0)))",
                e_element_sub_index(s, ext, index2, s.stack_push_sub_index))
        },
        at(RowScope::All, "local_read_value_invalid(0) == false", e_cell(s.local_read_value_invalid)),
        at(RowScope::All, "local_read_value(0)==stack_push_value(0)",
            e_sub(s.local_read_value.spec_expr(), s.stack_push_value.spec_expr())),
        at(RowScope::All, "local_read_value_header(0)==stack_push_value_header(0)",
            e_sub(e_cell(s.local_read_value_header), e_cell(s.stack_push_value_header))),
        at(RowScope::All, "local_write_version(0)==clk(0)", e_sub(e_cell(s.local_write_version), e_cell(s.clk))),
        at(RowScope::All, "local_write_value_invalid(0) == true", e_sub(e_cell(s.local_write_value_invalid), e_const(1))),
    ];
    head + look_back + tail
}

/// The cells that every row of a middle stage carries over.
pub open spec fn vec_swap_cell_moves(scope: RowScope, s: StepState, ref_sub: Cell, index1: Cell, index2: Cell)
    -> Seq<RequirementRecord> {
    seq![
        req(scope, None, Requirement::CellTransition(s.local_frame_index, Transition::Same)),
        req(scope, None, Requirement::CellTransition(s.local_index, Transition::Same)),
        req(scope, None, Requirement::CellTransition(ref_sub, Transition::Same)),
        req(scope, None, Requirement::CellTransition(index1, Transition::Same)),
        req(scope, None, Requirement::CellTransition(index2, Transition::Same)),
    ]
}

fn require_vec_swap_cell_moves(cb: &mut ConstraintBuilder, s: &StepState, ref_sub: Cell, index1: Cell, index2: Cell)
    requires
        old(cb).condition is None,
    ensures
        final(cb).requirements@ == old(cb).requirements@ + vec_swap_cell_moves(old(cb).scope, *s, ref_sub, index1, index2),
        final(cb).only_requirements_changed(*old(cb)),
{
    cb.require_cell_transition(s.local_frame_index, Transition::Same);
    cb.require_cell_transition(s.local_index, Transition::Same);
    cb.require_cell_transition(ref_sub, Transition::Same);
    cb.require_cell_transition(index1, Transition::Same);
    cb.require_cell_transition(index2, Transition::Same);
    proof {
        assert(cb.requirements@ =~= old(cb).requirements@ + vec_swap_cell_moves(old(cb).scope, *s, ref_sub, index1, index2));
    }
}

/// The execution state of stage `stage` of `VecSwap`.
pub open spec fn vec_swap_state(stage: nat) -> ExecutionState {
    if stage == 1 { ExecutionState::VecSwapStage1 }
    else if stage == 2 { ExecutionState::VecSwapStage2 }
    else if stage == 3 { ExecutionState::VecSwapStage3 }
    else if stage == 4 { ExecutionState::VecSwapStage4 }
    else { ExecutionState::VecSwapStage5 }
}

impl<const TWO: bool> VecSwapStage_2_Or_3<TWO> {
    pub fn configure(cb: &mut ConstraintBuilder) -> (r: Self)
        requires
            old(cb).wf(),
            old(cb).scope == RowScope::All,
            old(cb).condition is None,
            old(cb).has_room(44),
        ensures
            final(cb).wf(),
            final(cb).scope == RowScope::All,
            final(cb).condition is None,
            final(cb).curr == old(cb).curr,
            final(cb).next_column == old(cb).next_column + 44,
            r.index1 == (Cell { column: old(cb).next_column, rotation: 0 }),
            r.index2 == (Cell { column: (old(cb).next_column + 1) as usize, rotation: 0 }),
            r.ref_local_sub_index == (Cell { column: (old(cb).next_column + 2) as usize, rotation: 0 }),
            r.extended_sub_index.sub_index == e_cell(r.ref_local_sub_index),
            r.extended_sub_index.bytes@.len() == 32,
            fresh_cells(r.extended_sub_index.bytes@, (old(cb).next_column + 3) as nat),
            r.extended_sub_index.limbs@ == limb_exprs(r.extended_sub_index.bytes@, 8),
            r.extended_sub_index.mask@.len() == 8,
            fresh_cells(r.extended_sub_index.mask@, (old(cb).next_column + 35) as nat),
            r.extended_sub_index.reverse_limb == (Cell { column: (old(cb).next_column + 43) as usize, rotation: 0 }),
            final(cb).lookups@.len() == old(cb).lookups@.len() + 32,
            final(cb).lookups@.take(old(cb).lookups@.len() as int) == old(cb).lookups@,
            byte_range_records(final(cb).lookups@.skip(old(cb).lookups@.len() as int), r.extended_sub_index.bytes@,
                RowScope::All, None),
            final(cb).constraints@ == old(cb).constraints@
                + Seq::new(8, |i: int| at(RowScope::All, "Constrain cell to be a bool",
                    e_boolean(e_cell(r.extended_sub_index.mask@[i]))))
                + polys_at(ext_sub_index_polys(8, r.extended_sub_index.sub_index, r.extended_sub_index.limbs@,
                    r.extended_sub_index.mask@, r.extended_sub_index.reverse_limb), RowScope::All, None)
                + vec_swap_stage23_constraints(TWO, old(cb).curr, old(cb).curr.spec_at_offset(-1), r.index1, r.index2,
                    r.ref_local_sub_index, r.extended_sub_index),
            final(cb).requirements@.len() == old(cb).requirements@.len() + 17,
            final(cb).requirements@.take(old(cb).requirements@.len() as int) == old(cb).requirements@,
            final(cb).requirements@[old(cb).requirements@.len() as int].scope == RowScope::First,
            final(cb).requirements@[old(cb).requirements@.len() as int].condition is None,
            final(cb).requirements@[old(cb).requirements@.len() as int].requirement matches Requirement::PrevStates(v)
                && v@ == seq![vec_swap_state(if TWO { 1 } else { 2 })],
            final(cb).requirements@[old(cb).requirements@.len() as int + 1].scope == RowScope::Last,
            final(cb).requirements@[old(cb).requirements@.len() as int + 1].condition is None,
            final(cb).requirements@[old(cb).requirements@.len() as int + 1].requirement matches Requirement::NextStates(v)
                && v@ == seq![vec_swap_state(if TWO { 3 } else { 4 })],
            final(cb).requirements@.skip(old(cb).requirements@.len() as int + 2) == seq![
                req(RowScope::All, None, Requirement::NoStackPop),
            ] + transition_records(RowScope::Last, None, same_location()) + seq![
                req(RowScope::NotLast, None, Requirement::StateTransition(StateField::Sp, Transition::Same)),
                req(RowScope::Last, None, Requirement::StateTransition(StateField::Sp, Transition::Delta(e_const(1)))),
            ] + vec_swap_cell_moves(RowScope::All, old(cb).curr, r.ref_local_sub_index, r.index1, r.index2),
    {
        let index1 = cb.query_cell();
        let index2 = cb.query_cell();
        let ref_local_sub_index = cb.query_cell();
        let ghost c0 = cb.constraints@;
        let extended_sub_index = ExtendedSubIndex::<8>::construct(cb, ref_local_sub_index.expr());
        let ghost c1 = cb.constraints@;
        let s = cb.curr;
        let k0 = cb.requirements.len();
        let prev = cb.scope_begin(RowScope::First);
        cb.require_prev_state(if TWO { ExecutionState::VecSwapStage1 } else { ExecutionState::VecSwapStage2 });
        cb.scope_end(prev);
        let ghost m0 = cb.requirements@;
        let prev = cb.scope_begin(RowScope::Last);
        cb.require_next_state(if TWO { ExecutionState::VecSwapStage3 } else { ExecutionState::VecSwapStage4 });
        cb.scope_end(prev);
        let ghost m1 = cb.requirements@;
        cb.require_no_stack_pop();
        cb.require_equal(
            "stack_push_index(0) == sp(0)+1",
            s.stack_push_index.expr(),
            Expression::add(s.sp.expr(), Expression::constant(1)),
        );
        let prev = cb.scope_begin(RowScope::First);
        cb.require_zero("stack_push_sub_index(0)==0", s.stack_push_sub_index.expr());
        let c = cb.condition_begin(s.stack_push_value_header.expr());
        cb.require_equal(
            "step_counter(0) == stack_push_value(0).flen",
            s.step_counter.expr(),
            s.stack_push_value.as_header().flen(),
        );
        cb.condition_end(c);
        let c = cb.condition_begin(Expression::not(s.stack_push_value_header.expr()));
        cb.require_equal("step_counter(0) == 1", s.step_counter.expr(), Expression::constant(1));
        cb.condition_end(c);
        let p = cb.step_state_at_offset(-1);
        if TWO {
            let index = Index::new(s.local_frame_index.expr(), s.local_index.expr());
            cb.require_equal(
                "(local_frame_index(0), local_index(0)) == stack_pop_value(-1).as_reference().index()",
                index.expr(),
                p.stack_pop_value.as_reference().index(),
            );
            cb.require_equal(
                "ref_local_sub_index(0) == stack_pop_value(-1).as_reference().sub_index()",
                ref_local_sub_index.expr(),
                p.stack_pop_value.as_reference().sub_index(),
            );
        }
        cb.scope_end(prev);
        let element = Expression::add(
            if TWO { index1.expr() } else { index2.expr() },
            Expression::mul(s.stack_push_sub_index.expr(), Expression::constant(DEPTH_POW_OF_ONE_LEVEL as u128)),
        );
        if TWO {
            cb.require_equal(
                "local_sub_index(0) == concat(ref_local_sub_index(0),index1,nonzero(stack_push_sub_index(0)))",
                s.local_sub_index.expr(),
                extended_sub_index.concat(element),
            );
        } else {
            cb.require_equal(
                "local_sub_index(0) == concat(ref_local_sub_index(0),index2,nonzero(stack_push_sub_index(0)))",
                s.local_sub_index.expr(),
                extended_sub_index.concat(element),
            );
        }
        cb.require_zero("local_read_value_invalid(0) == false", s.local_read_value_invalid.expr());
        cb.require_equal("local_read_value(0)==stack_push_value(0)", s.local_read_value.expr(), s.stack_push_value.expr());
        cb.require_equal(
            "local_read_value_header(0)==stack_push_value_header(0)",
            s.local_read_value_header.expr(),
            s.stack_push_value_header.expr(),
        );
        cb.require_equal("local_write_version(0)==clk(0)", s.local_write_version.expr(), s.clk.expr());
        cb.require_true("local_write_value_invalid(0) == true", s.local_write_value_invalid.expr());
        let prev = cb.scope_begin(RowScope::Last);
        cb.require_state_transitions(same_location_vec());
        cb.scope_end(prev);
        let prev = cb.scope_begin(RowScope::NotLast);
        cb.require_state_transition(StateField::Sp, Transition::Same);
        cb.scope_end(prev);
        let prev = cb.scope_begin(RowScope::Last);
        cb.require_state_transition(StateField::Sp, Transition::Delta(Expression::constant(1)));
        cb.scope_end(prev);
        require_vec_swap_cell_moves(cb, &s, ref_local_sub_index, index1, index2);
        proof {
            let k = k0 as int;
            assert(c1 =~= c0 + Seq::new(8, |i: int| at(RowScope::All, "Constrain cell to be a bool",
                    e_boolean(e_cell(extended_sub_index.mask@[i]))))
                + polys_at(ext_sub_index_polys(8, extended_sub_index.sub_index, extended_sub_index.limbs@,
                    extended_sub_index.mask@, extended_sub_index.reverse_limb), RowScope::All, None));
            assert(cb.constraints@ =~= c1 + vec_swap_stage23_constraints(TWO, s, p, index1, index2,
                ref_local_sub_index, extended_sub_index));
            assert(m0.len() == k + 1);
            assert(m1.drop_last() == m0);
            assert(cb.requirements@.take(k + 2) =~= m1);
            assert(cb.requirements@.take(k) =~= old(cb).requirements@) by {
                assert(cb.requirements@.take(k) =~= m1.take(k));
                assert(m1.take(k) =~= m0.take(k));
                assert(m0.drop_last() == old(cb).requirements@);
                assert(m0.take(k) =~= m0.drop_last());
            }
            assert(cb.requirements@[k] == m0[k]) by {
                assert(cb.requirements@[k] == m1[k]);
            }
            assert(cb.requirements@[k + 1] == m1[k + 1]);
            assert(cb.requirements@.skip(k + 2) =~= seq![
                req(RowScope::All, None, Requirement::NoStackPop),
            ] + transition_records(RowScope::Last, None, same_location()) + seq![
                req(RowScope::NotLast, None, Requirement::StateTransition(StateField::Sp, Transition::Same)),
                req(RowScope::Last, None, Requirement::StateTransition(StateField::Sp, Transition::Delta(e_const(1)))),
            ] + vec_swap_cell_moves(RowScope::All, s, ref_local_sub_index, index1, index2));
        }
        VecSwapStage_2_Or_3 { index1, index2, ref_local_sub_index, extended_sub_index }
    }
}

/// Stage 4 (`FOUR`) or 5 of `VecSwap`: pops a value, one flattened limb per
/// row, and writes it into the element at `index1` (stage 4) or `index2`
/// (stage 5) of the referenced vector.
#[derive(Debug)]
#[allow(non_camel_case_types)]
pub struct VecSwapStage_4_Or_5<const FOUR: bool> {
    pub index1: Cell,
    pub index2: Cell,
    pub ref_local_sub_index: Cell,
    pub extended_sub_index: ExtendedSubIndex<8>,
}

pub open spec fn vec_swap_stage45_constraints(four: bool, s: StepState, index1: Cell, index2: Cell,
    ext: ExtendedSubIndex<8>) -> Seq<Constraint> {
    let h = e_cell(s.stack_pop_value_header);
    seq![
        at(RowScope::All, "stack_pop_index(0) == sp(0)", e_sub(e_cell(s.stack_pop_index), e_cell(s.sp))),
        at(RowScope::First, "stack_pop_sub_index(0)==0", e_cell(s.stack_pop_sub_index)),
        at(RowScope::First, "step_counter(0) == stack_pop_value(0).flen",
            e_mul(h, e_sub(e_cell(s.step_counter), e_cell(s.stack_pop_value.cells[0])))),
        at(RowScope::First, "step_counter(0) == 1", e_mul(e_not(h), e_sub(e_cell(s.step_counter), e_const(1)))),
        if four {
            at(RowScope::All, "local_sub_index(0) == concat(ref_local_sub_index(0),index1,nonzero(stack_pop_sub_index(0)))",
                e_element_sub_index(s, ext, index1, s.stack_pop_sub_index))
        } else {
            at(RowScope::All, "local_sub_index(0) == concat(ref_local_sub_index(0),index2,nonzero(stack_pop_sub_index(0)))",
                e_element_sub_index(s, ext, index2, s.stack_pop_sub_index))
        },
        at(RowScope::All, "local_read_value_invalid(0) == true", e_sub(e_cell(s.local_read_value_invalid), e_const(1))),
        at(RowScope::All, "local_write_value_invalid(0) == false", e_cell(s.local_write_value_invalid)),
        at(RowScope::All, "stack_pop_value(0)==local_write_value(0)",
            e_sub(s.stack_pop_value.spec_expr(), s.local_write_value.spec_expr())),
        at(RowScope::All, "local_write_value_header(0)==stack_pop_value_header(0)",
            e_sub(e_cell(s.stack_pop_value_header), e_cell(s.local_write_value_header))),
        at(RowScope::All, "local_write_version(0)==clk(0)", e_sub(e_cell(s.local_write_version), e_cell(s.clk))),
    ]
}

/// The requirements of stage 4 or 5 after its state requirements.
pub open spec fn vec_swap_stage45_moves(four: bool, s: StepState, ref_sub: Cell, index1: Cell, index2: Cell)
    -> Seq<RequirementRecord> {
    seq![req(RowScope::All, None, Requirement::NoStackPush)]
        + (if four { transition_records(RowScope::Last, None, same_location()) } else { seq![] })
        + seq![
            req(RowScope::NotLast, None, Requirement::StateTransition(StateField::Sp, Transition::Same)),
            req(RowScope::Last, None, Requirement::StateTransition(StateField::Sp, Transition::Delta(minus_one()))),
        ]
        + vec_swap_cell_moves(if four { RowScope::All } else { RowScope::NotLast }, s, ref_sub, index1, index2)
}

impl<const FOUR: bool> VecSwapStage_4_Or_5<FOUR> {
    pub fn configure(cb: &mut ConstraintBuilder) -> (r: Self)
        requires
            old(cb).wf(),
            old(cb).scope == RowScope::All,
            old(cb).condition is None,
            old(cb).has_room(44),
        ensures
            final(cb).wf(),
            final(cb).scope == RowScope::All,
            final(cb).condition is None,
            final(cb).curr == old(cb).curr,
            final(cb).next_column == old(cb).next_column + 44,
            r.index1 == (Cell { column: old(cb).next_column, rotation: 0 }),
            r.index2 == (Cell { column: (old(cb).next_column + 1) as usize, rotation: 0 }),
            r.ref_local_sub_index == (Cell { column: (old(cb).next_column + 2) as usize, rotation: 0 }),
            r.extended_sub_index.sub_index == e_cell(r.ref_local_sub_index),
            r.extended_sub_index.bytes@.len() == 32,
            fresh_cells(r.extended_sub_index.bytes@, (old(cb).next_column + 3) as nat),
            r.extended_sub_index.limbs@ == limb_exprs(r.extended_sub_index.bytes@, 8),
            r.extended_sub_index.mask@.len() == 8,
            fresh_cells(r.extended_sub_index.mask@, (old(cb).next_column + 35) as nat),
            r.extended_sub_index.reverse_limb == (Cell { column: (old(cb).next_column + 43) as usize, rotation: 0 }),
            final(cb).lookups@.len() == old(cb).lookups@.len() + 32,
            final(cb).lookups@.take(old(cb).lookups@.len() as int) == old(cb).lookups@,
            byte_range_records(final(cb).lookups@.skip(old(cb).lookups@.len() as int), r.extended_sub_index.bytes@,
                RowScope::All, None),
            final(cb).constraints@ == old(cb).constraints@
                + Seq::new(8, |i: int| at(RowScope::All, "Constrain cell to be a bool",
                    e_boolean(e_cell(r.extended_sub_index.mask@[i]))))
                + polys_at(ext_sub_index_polys(8, r.extended_sub_index.sub_index, r.extended_sub_index.limbs@,
                    r.extended_sub_index.mask@, r.extended_sub_index.reverse_limb), RowScope::All, None)
                + vec_swap_stage45_constraints(FOUR, old(cb).curr, r.index1, r.index2, r.extended_sub_index),
            final(cb).requirements@.take(old(cb).requirements@.len() as int) == old(cb).requirements@,
            final(cb).requirements@[old(cb).requirements@.len() as int].scope == RowScope::First,
            final(cb).requirements@[old(cb).requirements@.len() as int].condition is None,
            final(cb).requirements@[old(cb).requirements@.len() as int].requirement matches Requirement::PrevStates(v)
                && v@ == seq![vec_swap_state(if FOUR { 3 } else { 4 })],
            FOUR ==> final(cb).requirements@[old(cb).requirements@.len() as int + 1].scope == RowScope::Last,
            FOUR ==> final(cb).requirements@[old(cb).requirements@.len() as int + 1].condition is None,
            FOUR ==> (final(cb).requirements@[old(cb).requirements@.len() as int + 1].requirement matches Requirement::NextStates(v)
                && v@ == seq![ExecutionState::VecSwapStage5]),
            final(cb).requirements@.skip(old(cb).requirements@.len() as int + if FOUR { 2int } else { 1int })
                == vec_swap_stage45_moves(FOUR, old(cb).curr, r.ref_local_sub_index, r.index1, r.index2),
    {
        let index1 = cb.query_cell();
        let index2 = cb.query_cell();
        let ref_local_sub_index = cb.query_cell();
        let ghost c0 = cb.constraints@;
        let extended_sub_index = ExtendedSubIndex::<8>::construct(cb, ref_local_sub_index.expr());
        let ghost c1 = cb.constraints@;
        let s = cb.curr;
        let k0 = cb.requirements.len();
        let prev = cb.scope_begin(RowScope::First);
        cb.require_prev_state(if FOUR { ExecutionState::VecSwapStage3 } else { ExecutionState::VecSwapStage4 });
        cb.scope_end(prev);
        let ghost m0 = cb.requirements@;
        if FOUR {
            let prev = cb.scope_begin(RowScope::Last);
            cb.require_next_state(ExecutionState::VecSwapStage5);
            cb.scope_end(prev);
        }
        let ghost m1 = cb.requirements@;
        cb.require_no_stack_push();
        cb.require_equal("stack_pop_index(0) == sp(0)", s.stack_pop_index.expr(), s.sp.expr());
        let prev = cb.scope_begin(RowScope::First);
        cb.require_zero("stack_pop_sub_index(0)==0", s.stack_pop_sub_index.expr());
        let c = cb.condition_begin(s.stack_pop_value_header.expr());
        cb.require_equal(
            "step_counter(0) == stack_pop_value(0).flen",
            s.step_counter.expr(),
            s.stack_pop_value.as_header().flen(),
        );
        cb.condition_end(c);
        let c = cb.condition_begin(Expression::not(s.stack_pop_value_header.expr()));
        cb.require_equal("step_counter(0) == 1", s.step_counter.expr(), Expression::constant(1));
        cb.condition_end(c);
        cb.scope_end(prev);
        let element = Expression::add(
            if FOUR { index1.expr() } else { index2.expr() },
            Expression::mul(s.stack_pop_sub_index.expr(), Expression::constant(DEPTH_POW_OF_ONE_LEVEL as u128)),
        );
        if FOUR {
            cb.require_equal(
                "local_sub_index(0) == concat(ref_local_sub_index(0),index1,nonzero(stack_pop_sub_index(0)))",
                s.local_sub_index.expr(),
                extended_sub_index.concat(element),
            );
        } else {
            cb.require_equal(
                "local_sub_index(0) == concat(ref_local_sub_index(0),index2,nonzero(stack_pop_sub_index(0)))",
                s.local_sub_index.expr(),
                extended_sub_index.concat(element),
            );
        }
        cb.require_true("local_read_value_invalid(0) == true", s.local_read_value_invalid.expr());
        cb.require_zero("local_write_value_invalid(0) == false", s.local_write_value_invalid.expr());
        cb.require_equal("stack_pop_value(0)==local_write_value(0)", s.stack_pop_value.expr(), s.local_write_value.expr());
        cb.require_equal(
            "local_write_value_header(0)==stack_pop_value_header(0)",
            s.stack_pop_value_header.expr(),
            s.local_write_value_header.expr(),
        );
        cb.require_equal("local_write_version(0)==clk(0)", s.local_write_version.expr(), s.clk.expr());
        if FOUR {
            let prev = cb.scope_begin(RowScope::Last);
            cb.require_state_transitions(same_location_vec());
            cb.scope_end(prev);
        }
        let prev = cb.scope_begin(RowScope::NotLast);
        cb.require_state_transition(StateField::Sp, Transition::Same);
        cb.scope_end(prev);
        let prev = cb.scope_begin(RowScope::Last);
        cb.require_state_transition(StateField::Sp, Transition::Delta(Expression::neg(Expression::constant(1))));
        cb.scope_end(prev);
        if FOUR {
            require_vec_swap_cell_moves(cb, &s, ref_local_sub_index, index1, index2);
        } else {
            let prev = cb.scope_begin(RowScope::NotLast);
            require_vec_swap_cell_moves(cb, &s, ref_local_sub_index, index1, index2);
            cb.scope_end(prev);
        }
        proof {
            let k = k0 as int;
            assert(c1 =~= c0 + Seq::new(8, |i: int| at(RowScope::All, "Constrain cell to be a bool",
                    e_boolean(e_cell(extended_sub_index.mask@[i]))))
                + polys_at(ext_sub_index_polys(8, extended_sub_index.sub_index, extended_sub_index.limbs@,
                    extended_sub_index.mask@, extended_sub_index.reverse_limb), RowScope::All, None));
            assert(cb.constraints@ =~= c1 + vec_swap_stage45_constraints(FOUR, s, index1, index2, extended_sub_index));
            let j = if FOUR { k + 2 } else { k + 1 };
            assert(m0.len() == k + 1);
            assert(m0.drop_last() == old(cb).requirements@);
            assert(cb.requirements@.take(j) =~= m1);
            assert(m1.take(k + 1) =~= m0);
            assert(cb.requirements@.take(k) =~= old(cb).requirements@) by {
                assert(cb.requirements@.take(k) =~= m1.take(k));
                assert(m1.take(k) =~= m0.take(k));
                assert(m0.take(k) =~= m0.drop_last());
            }
            assert(cb.requirements@[k] == m0[k]) by {
                assert(cb.requirements@[k] == m1[k]);
            }
            if FOUR {
                assert(cb.requirements@[k + 1] == m1[k + 1]);
            }
            assert(cb.requirements@.skip(j) =~= vec_swap_stage45_moves(FOUR, s, ref_local_sub_index, index1, index2));
        }
        VecSwapStage_4_Or_5 { index1, index2, ref_local_sub_index, extended_sub_index }
    }
}

} // verus!
