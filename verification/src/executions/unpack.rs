use vstd::prelude::*;
use crate::builder::{Constraint, ConstraintBuilder, RowScope, Requirement, Transition, at, e_boolean, fresh_cells,
    guarded, req, states_record, transition_records, u16_range_records};
use crate::executions::MembershipGadget;
use crate::sub_index::{DEPTH_POW_OF_ONE_LEVEL, polys_at};
use crate::executions::add_sub::cell_at;
use crate::executions::common::{minus_one, same_function, same_function_vec};
use crate::expr::{Cell, Expression, e_add, e_cell, e_const, e_mul, e_not, e_sub};
use crate::math_gadgets::is_zero::{IsZeroGadget, e_is_zero};
use crate::opcode::Opcode;
use crate::step::{ExecutionState, StateField, StepState, rotate};

verus! {

/// The first stage of `Unpack` or `VecUnpack` (`VEC_UNPACK`): checks the
/// popped header against the number of fields `aux0` and hands the field
/// count to the second stage. A vector without elements ends here.
#[derive(Debug)]
pub struct UnpackStage1<const VEC_UNPACK: bool> {
    pub field_index: Cell,
    pub is_zero_num_field: IsZeroGadget,
}

pub open spec fn unpack_opcode(vec_unpack: bool) -> Opcode {
    if vec_unpack { Opcode::VecUnpack } else { Opcode::Unpack }
}

/// The condition under which the second stage follows: always for `Unpack`,
/// for a nonempty vector for `VecUnpack`.
pub open spec fn unpack_more(vec_unpack: bool, no_field: Expression) -> Option<Expression> {
    if vec_unpack { Some(e_not(no_field)) } else { None }
}

pub open spec fn unpack_stage1_constraints(vec_unpack: bool, s: StepState, field_index: Cell, no_field: Expression)
    -> Seq<Constraint> {
    seq![
        at(RowScope::All, "opcode", e_sub(e_cell(s.opcode), e_const(unpack_opcode(vec_unpack).spec_index() as u128))),
        at(RowScope::All, "step_counter(0) == 1", e_sub(e_cell(s.step_counter), e_const(1))),
        at(RowScope::All, "stack_pop_index(0) == sp(0)", e_sub(e_cell(s.stack_pop_index), e_cell(s.sp))),
        at(RowScope::All, "stack_pop_sub_index(0) == 0", e_cell(s.stack_pop_sub_index)),
        at(RowScope::All, "stack_pop_value(0).as_header().len() == aux0(0)",
            e_sub(e_cell(s.stack_pop_value.cells[1]), e_cell(s.aux0))),
        Constraint { name: "field_index(1) == aux0(0)", scope: RowScope::All,
            poly: guarded(unpack_more(vec_unpack, no_field), e_sub(e_cell(rotate(field_index, 1)), e_cell(s.aux0))) },
    ]
}

/// Staying at the instruction while the fields are unpacked.
pub open spec fn stay() -> Seq<(StateField, Transition)> {
    seq![(StateField::Pc, Transition::Same), (StateField::Sp, Transition::Same)]
}

/// Leaving an empty vector: the next instruction, the header popped.
pub open spec fn leave_empty() -> Seq<(StateField, Transition)> {
    seq![(StateField::Pc, Transition::Delta(e_const(1))), (StateField::Sp, Transition::Delta(minus_one()))]
}

fn stay_vec() -> (r: Vec<(StateField, Transition)>)
    ensures
        r@ == stay(),
{
    let v = vec![(StateField::Pc, Transition::Same), (StateField::Sp, Transition::Same)];
    proof {
        assert(v@ =~= stay());
    }
    v
}

impl<const VEC_UNPACK: bool> UnpackStage1<VEC_UNPACK> {
    #[verifier::rlimit(40)]
    pub fn configure(cb: &mut ConstraintBuilder) -> (r: Self)
        requires
            old(cb).wf(),
            old(cb).scope == RowScope::All,
            old(cb).condition is None,
            old(cb).has_room(2),
        ensures
            final(cb).wf(),
            final(cb).scope == RowScope::All,
            final(cb).condition is None,
            final(cb).curr == old(cb).curr,
            final(cb).next_column == old(cb).next_column + 2,
            r.field_index == cell_at(old(cb).next_column as int),
            r.is_zero_num_field.value == e_cell(old(cb).curr.aux0),
            r.is_zero_num_field.is_zero == e_is_zero(e_cell(old(cb).curr.aux0), cell_at(old(cb).next_column + 1)),
            final(cb).lookups == old(cb).lookups,
            final(cb).constraints@ == old(cb).constraints@
                + unpack_stage1_constraints(VEC_UNPACK, old(cb).curr, r.field_index, r.is_zero_num_field.is_zero),
            final(cb).requirements@.len() == old(cb).requirements@.len() + (if VEC_UNPACK { 10int } else { 8int }),
            final(cb).requirements@.take(old(cb).requirements@.len() as int + 5) == old(cb).requirements@ + seq![
                req(RowScope::All, None, Requirement::NoStackPush),
                req(RowScope::All, None, Requirement::NoLocalOp),
            ] + transition_records(RowScope::All, None, same_function()),
            states_record(final(cb).requirements@[old(cb).requirements@.len() as int + 5], RowScope::All,
                unpack_more(VEC_UNPACK, r.is_zero_num_field.is_zero), true, seq![ExecutionState::UnpackStage2]),
            final(cb).requirements@.skip(old(cb).requirements@.len() as int + 6)
                == transition_records(RowScope::All, unpack_more(VEC_UNPACK, r.is_zero_num_field.is_zero), stay())
                + (if VEC_UNPACK {
                    transition_records(RowScope::All, Some(r.is_zero_num_field.is_zero), leave_empty())
                } else {
                    Seq::empty()
                }),
    {
        let field_index = cb.query_cell();
        let s = cb.curr;
        let is_zero_num_field = IsZeroGadget::construct(cb, s.aux0.expr());
        let op = if VEC_UNPACK { Opcode::VecUnpack } else { Opcode::Unpack };
        cb.require_equal("opcode", s.opcode.expr(), Expression::constant(op.index() as u128));
        cb.require_equal("step_counter(0) == 1", s.step_counter.expr(), Expression::constant(1));
        cb.require_equal("stack_pop_index(0) == sp(0)", s.stack_pop_index.expr(), s.sp.expr());
        cb.require_zero("stack_pop_sub_index(0) == 0", s.stack_pop_sub_index.expr());
        cb.require_equal(
            "stack_pop_value(0).as_header().len() == aux0(0)",
            s.stack_pop_value.as_header().len(),
            s.aux0.expr(),
        );
        cb.require_no_stack_push();
        cb.require_no_local_op();
        cb.require_state_transitions(same_function_vec());
        let ghost m0 = cb.requirements@;
        let field_index_next = field_index.at_offset(1);
        let c = if VEC_UNPACK {
            cb.condition_begin(Expression::not(is_zero_num_field.expr()))
        } else {
            None
        };
        cb.require_next_state(ExecutionState::UnpackStage2);
        let ghost m1 = cb.requirements@;
        cb.require_state_transitions(stay_vec());
        cb.require_equal("field_index(1) == aux0(0)", field_index_next.expr(), s.aux0.expr());
        if VEC_UNPACK {
            cb.condition_end(c);
            let c = cb.condition_begin(is_zero_num_field.expr());
            let leave = vec![
                (StateField::Pc, Transition::Delta(Expression::constant(1))),
                (StateField::Sp, Transition::Delta(Expression::neg(Expression::constant(1)))),
            ];
            proof {
                assert(leave@ =~= leave_empty());
            }
            cb.require_state_transitions(leave);
            cb.condition_end(c);
        }
        proof {
            let k = old(cb).requirements@.len() as int;
            assert(cb.constraints@ =~= old(cb).constraints@
                + unpack_stage1_constraints(VEC_UNPACK, s, field_index, is_zero_num_field.is_zero));
            assert(m0 =~= old(cb).requirements@ + seq![
                req(RowScope::All, None, Requirement::NoStackPush),
                req(RowScope::All, None, Requirement::NoLocalOp),
            ] + transition_records(RowScope::All, None, same_function()));
            assert(m1.drop_last() == m0);
            assert(cb.requirements@.take(k + 6) =~= m1);
            assert(cb.requirements@.take(k + 5) =~= m0) by {
                assert(cb.requirements@.take(k + 5) =~= m1.take(k + 5));
                assert(m1.take(k + 5) =~= m1.drop_last());
            }
            assert(cb.requirements@[k + 5] == m1[k + 5]);
            assert(cb.requirements@.skip(k + 6)
                =~= transition_records(RowScope::All, unpack_more(VEC_UNPACK, is_zero_num_field.is_zero), stay())
                + (if VEC_UNPACK {
                    transition_records(RowScope::All, Some(is_zero_num_field.is_zero), leave_empty())
                } else {
                    Seq::empty()
                }));
        }
        UnpackStage1 { field_index, is_zero_num_field }
    }
}


/// The second stage of `Unpack` or `VecUnpack`: pops the value one flattened
/// limb per row and pushes each field as a value of its own, field
/// `field_index` at stack slot `sp + field_index - 1`; `field_index` counts
/// the fields down to `1`.
#[derive(Debug)]
pub struct UnpackStage2<const VEC_UNPACK: bool> {
    pub field_index: Cell,
    pub is_last_field: IsZeroGadget,
    pub membership_gadget: MembershipGadget<8>,
}

pub open spec fn unpack_stage2_first(s: StepState, field_index: Cell) -> Seq<Constraint> {
    let h = e_cell(s.stack_pop_value_header);
    seq![
        at(RowScope::First, "stack_pop_sub_index(0) == field_index(0)",
            e_sub(e_cell(s.stack_pop_sub_index), e_cell(field_index))),
        at(RowScope::First, "step_counter(0) == stack_pop_value(0).as_header().flen",
            e_mul(h, e_sub(e_cell(s.step_counter), e_cell(s.stack_pop_value.cells[0])))),
        at(RowScope::First, "step_counter(0) == 1", e_mul(e_not(h), e_sub(e_cell(s.step_counter), e_const(1)))),
    ]
}

pub open spec fn unpack_stage2_all(s: StepState, field_index: Cell) -> Seq<Constraint> {
    seq![
        at(RowScope::All, "stack_pop_index(0) == sp(0)", e_sub(e_cell(s.stack_pop_index), e_cell(s.sp))),
        at(RowScope::All, "stack_push_index(0) == sp(0) + field_index(0) - 1",
            e_sub(e_cell(s.stack_push_index), e_sub(e_add(e_cell(s.sp), e_cell(field_index)), e_const(1)))),
        at(RowScope::All, "stack_push_sub_index(0) * DEPTH_POW_OF_ONE_LEVEL + field_index(0) == stack_pop_sub_index(0)",
            e_sub(e_add(e_mul(e_cell(s.stack_push_sub_index), e_const(DEPTH_POW_OF_ONE_LEVEL as u128)), e_cell(field_index)),
                e_cell(s.stack_pop_sub_index))),
        at(RowScope::All, "stack_push_value(0) == stack_pop_value(0)",
            e_sub(s.stack_push_value.spec_expr(), s.stack_pop_value.spec_expr())),
        at(RowScope::All, "stack_push_value_header(0) == stack_pop_value_header(0)",
            e_sub(e_cell(s.stack_push_value_header), e_cell(s.stack_pop_value_header))),
        at(RowScope::All, "stack_push_version(0) == clk(0)", e_sub(e_cell(s.stack_push_version), e_cell(s.clk))),
    ]
}

/// After the last field: the next instruction, and the stack pointer at the
/// last pushed field.
pub open spec fn unpack_done(s: StepState) -> Seq<(StateField, Transition)> {
    seq![
        (StateField::Pc, Transition::Delta(e_const(1))),
        (StateField::Sp, Transition::To(e_sub(e_add(e_cell(s.sp), e_cell(s.aux0)), e_const(1)))),
    ]
}

impl<const VEC_UNPACK: bool> UnpackStage2<VEC_UNPACK> {
    #[verifier::rlimit(60)]
    pub fn configure(cb: &mut ConstraintBuilder) -> (r: Self)
        requires
            old(cb).wf(),
            old(cb).scope == RowScope::All,
            old(cb).condition is None,
            old(cb).has_room(35),
        ensures
            final(cb).wf(),
            final(cb).scope == RowScope::All,
            final(cb).condition is None,
            final(cb).curr == old(cb).curr,
            final(cb).next_column == old(cb).next_column + 35,
            r.field_index == cell_at(old(cb).next_column as int),
            r.is_last_field.value == e_sub(e_cell(r.field_index), e_const(1)),
            r.is_last_field.is_zero == e_is_zero(e_sub(e_cell(r.field_index), e_const(1)), cell_at(old(cb).next_column + 1)),
            r.membership_gadget.wf(),
            fresh_cells(r.membership_gadget.header_limbs@, (old(cb).next_column + 2) as nat),
            fresh_cells(r.membership_gadget.field_limbs@, (old(cb).next_column + 10) as nat),
            fresh_cells(r.membership_gadget.mask@, (old(cb).next_column + 18) as nat),
            fresh_cells(r.membership_gadget.reverse_limbs@, (old(cb).next_column + 26) as nat),
            r.membership_gadget.reverse_header_field_diff == cell_at(old(cb).next_column + 34),
            final(cb).lookups@.len() == old(cb).lookups@.len() + 16,
            final(cb).lookups@.take(old(cb).lookups@.len() as int) == old(cb).lookups@,
            u16_range_records(final(cb).lookups@.subrange(old(cb).lookups@.len() as int, old(cb).lookups@.len() as int + 8),
                r.membership_gadget.header_limbs@, RowScope::All, None),
            u16_range_records(final(cb).lookups@.skip(old(cb).lookups@.len() as int + 8), r.membership_gadget.field_limbs@,
                RowScope::All, None),
            final(cb).constraints@ == old(cb).constraints@
                + Seq::new(8, |i: int| at(RowScope::All, "Constrain cell to be a bool",
                    e_boolean(e_cell(r.membership_gadget.mask@[i]))))
                + unpack_stage2_first(old(cb).curr, r.field_index)
                + polys_at(r.membership_gadget.spec_polys(e_cell(r.field_index), e_cell(old(cb).curr.stack_pop_sub_index)),
                    RowScope::NotFirst, None)
                + unpack_stage2_all(old(cb).curr, r.field_index),
            final(cb).requirements@.len() == old(cb).requirements@.len() + 13,
            states_record(final(cb).requirements@[old(cb).requirements@.len() as int], RowScope::First, None, false,
                seq![ExecutionState::UnpackStage1, ExecutionState::UnpackStage2]),
            final(cb).requirements@.subrange(old(cb).requirements@.len() as int + 1, old(cb).requirements@.len() as int + 4)
                == seq![
                req(RowScope::All, None, Requirement::NoLocalOp),
                req(RowScope::NotLast, None, Requirement::StateTransition(StateField::Sp, Transition::Same)),
                req(RowScope::NotLast, None, Requirement::CellTransition(r.field_index, Transition::Same)),
            ],
            states_record(final(cb).requirements@[old(cb).requirements@.len() as int + 4], RowScope::Last,
                Some(e_not(r.is_last_field.is_zero)), true, seq![ExecutionState::UnpackStage2]),
            final(cb).requirements@.skip(old(cb).requirements@.len() as int + 5)
                == transition_records(RowScope::Last, Some(e_not(r.is_last_field.is_zero)), stay())
                + seq![req(RowScope::Last, Some(e_not(r.is_last_field.is_zero)),
                    Requirement::CellTransition(r.field_index, Transition::Delta(minus_one())))]
                + transition_records(RowScope::Last, Some(r.is_last_field.is_zero), unpack_done(old(cb).curr))
                + transition_records(RowScope::Last, None, same_function()),
    {
        let field_index = cb.query_cell();
        let is_last_field = IsZeroGadget::construct(cb, Expression::sub(field_index.expr(), Expression::constant(1)));
        let ghost c0 = cb.constraints@;
        let membership_gadget = MembershipGadget::<8>::construct(cb);
        let ghost c1 = cb.constraints@;
        let s = cb.curr;
        let k0 = cb.requirements.len();

        let prev = cb.scope_begin(RowScope::First);
        cb.require_prev_states(vec![ExecutionState::UnpackStage1, ExecutionState::UnpackStage2]);
        cb.require_equal("stack_pop_sub_index(0) == field_index(0)", s.stack_pop_sub_index.expr(), field_index.expr());
        let c = cb.condition_begin(s.stack_pop_value_header.expr());
        cb.require_equal(
            "step_counter(0) == stack_pop_value(0).as_header().flen",
            s.step_counter.expr(),
            s.stack_pop_value.as_header().flen(),
        );
        cb.condition_end(c);
        let c = cb.condition_begin(Expression::not(s.stack_pop_value_header.expr()));
        cb.require_equal("step_counter(0) == 1", s.step_counter.expr(), Expression::constant(1));
        cb.condition_end(c);
        cb.scope_end(prev);
        let ghost m0 = cb.requirements@;
        let ghost c2 = cb.constraints@;

        let prev = cb.scope_begin(RowScope::NotFirst);
        membership_gadget.configure(cb, field_index.expr(), s.stack_pop_sub_index.expr());
        cb.scope_end(prev);
        let ghost c3 = cb.constraints@;

        cb.require_equal("stack_pop_index(0) == sp(0)", s.stack_pop_index.expr(), s.sp.expr());
        cb.require_equal(
            "stack_push_index(0) == sp(0) + field_index(0) - 1",
            s.stack_push_index.expr(),
            Expression::sub(Expression::add(s.sp.expr(), field_index.expr()), Expression::constant(1)),
        );
        cb.require_equal(
            "stack_push_sub_index(0) * DEPTH_POW_OF_ONE_LEVEL + field_index(0) == stack_pop_sub_index(0)",
            Expression::add(
                Expression::mul(s.stack_push_sub_index.expr(), Expression::constant(DEPTH_POW_OF_ONE_LEVEL as u128)),
                field_index.expr(),
            ),
            s.stack_pop_sub_index.expr(),
        );
        cb.require_equal("stack_push_value(0) == stack_pop_value(0)", s.stack_push_value.expr(), s.stack_pop_value.expr());
        cb.require_equal(
            "stack_push_value_header(0) == stack_pop_value_header(0)",
            s.stack_push_value_header.expr(),
            s.stack_pop_value_header.expr(),
        );
        cb.require_equal("stack_push_version(0) == clk(0)", s.stack_push_version.expr(), s.clk.expr());
        cb.require_no_local_op();

        let prev = cb.scope_begin(RowScope::NotLast);
        cb.require_state_transition(StateField::Sp, Transition::Same);
        cb.require_cell_transition(field_index, Transition::Same);
        cb.scope_end(prev);
        let ghost m1 = cb.requirements@;

        let prev = cb.scope_begin(RowScope::Last);
        let c = cb.condition_begin(Expression::not(is_last_field.expr()));
        cb.require_next_state(ExecutionState::UnpackStage2);
        let ghost m2 = cb.requirements@;
        cb.require_state_transitions(stay_vec());
        cb.require_cell_transition(field_index, Transition::Delta(Expression::neg(Expression::constant(1))));
        cb.condition_end(c);
        let c = cb.condition_begin(is_last_field.expr());
        let done = vec![
            (StateField::Pc, Transition::Delta(Expression::constant(1))),
            (StateField::Sp, Transition::To(Expression::sub(Expression::add(s.sp.expr(), s.aux0.expr()), Expression::constant(1)))),
        ];
        proof {
            assert(done@ =~= unpack_done(s));
        }
        cb.require_state_transitions(done);
        cb.condition_end(c);
        cb.require_state_transitions(same_function_vec());
        cb.scope_end(prev);
        proof {
            let k = k0 as int;
            assert(c1 =~= c0 + Seq::new(8, |i: int| at(RowScope::All, "Constrain cell to be a bool",
                e_boolean(e_cell(membership_gadget.mask@[i])))));
            assert(c2 =~= c1 + unpack_stage2_first(s, field_index));
            assert(cb.constraints@ =~= c3 + unpack_stage2_all(s, field_index));
            assert(m0.len() == k + 1);
            assert(m1 =~= m0 + seq![
                req(RowScope::All, None, Requirement::NoLocalOp),
                req(RowScope::NotLast, None, Requirement::StateTransition(StateField::Sp, Transition::Same)),
                req(RowScope::NotLast, None, Requirement::CellTransition(field_index, Transition::Same)),
            ]);
            assert(m2.drop_last() == m1);
            assert(cb.requirements@.take(k + 5) =~= m2);
            assert(cb.requirements@[k] == m0[k]) by {
                assert(cb.requirements@[k] == cb.requirements@.take(k + 5)[k]);
                assert(m2[k] == m1[k]);
            }
            assert(cb.requirements@.subrange(k + 1, k + 4) =~= m1.subrange(k + 1, k + 4)) by {
                assert(cb.requirements@.subrange(k + 1, k + 4) =~= m2.subrange(k + 1, k + 4));
            }
            assert(cb.requirements@[k + 4] == m2[k + 4]);
            assert(cb.requirements@.skip(k + 5)
                =~= transition_records(RowScope::Last, Some(e_not(is_last_field.is_zero)), stay())
                + seq![req(RowScope::Last, Some(e_not(is_last_field.is_zero)),
                    Requirement::CellTransition(field_index, Transition::Delta(minus_one())))]
                + transition_records(RowScope::Last, Some(is_last_field.is_zero), unpack_done(s))
                + transition_records(RowScope::Last, None, same_function()));
        }
        UnpackStage2 { field_index, is_last_field, membership_gadget }
    }
}

} // verus!
