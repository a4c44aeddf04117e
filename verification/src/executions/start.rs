use vstd::prelude::*;
use crate::builder::{Constraint, ConstraintBuilder, RowScope, Requirement, Transition, at, req, transition_records};
use crate::executions::add_sub::cell_at;
use crate::executions::common::{minus_one, same_function, same_function_vec};
use crate::expr::{Cell, Expression, e_cell, e_const, e_mul, e_not, e_sub};
use crate::field::Fe;
use crate::lookup_table::{Lookup, Table};
use crate::math_gadgets::is_zero::{IsZeroGadget, e_is_zero, zero_test};
use crate::step::{ExecutionState, StateField, StepState, rotate};

verus! {

/// Checks the number of arguments of the entry function: without arguments
/// the entry function is entered at once, else the next stage stores them.
#[derive(Debug)]
pub struct StartStage1 {
    pub num_arg: Cell,
    pub is_zero_num_arg: IsZeroGadget,
}

/// The function-table row of the entry function: the step's module and
/// function, `num_arg`, and `entry == 1`.
pub open spec fn entry_lookup_inputs(s: StepState, num_arg: Cell) -> Seq<Expression> {
    seq![e_cell(s.module_index), e_cell(s.function_index), e_cell(num_arg), e_const(1)]
}

/// Entering the entry function: pc and sp start at `0`.
pub open spec fn enter_entry() -> Seq<(StateField, Transition)> {
    seq![(StateField::Pc, Transition::To(e_const(0))), (StateField::Sp, Transition::To(e_const(0)))]
}

fn enter_entry_vec() -> (r: Vec<(StateField, Transition)>)
    ensures
        r@ == enter_entry(),
{
    let v = vec![
        (StateField::Pc, Transition::To(Expression::constant(0))),
        (StateField::Sp, Transition::To(Expression::constant(0))),
    ];
    proof {
        assert(v@ =~= enter_entry());
    }
    v
}

pub open spec fn start_stage1_constraints(s: StepState, num_arg: Cell, is_zero: Expression) -> Seq<Constraint> {
    seq![
        at(RowScope::All, "frame_index = 0", e_cell(s.frame_index)),
        at(RowScope::All, "StartStage1, step_counter(0) == 1", e_sub(e_cell(s.step_counter), e_const(1))),
        at(RowScope::All, "StartStage1, local_index(1) == num_arg(0) - 1", e_mul(e_not(is_zero),
            e_sub(e_cell(rotate(s.local_index, 1)), e_sub(e_cell(num_arg), e_const(1))))),
    ]
}

impl StartStage1 {
    #[verifier::rlimit(40)]
    pub fn configure(cb: &mut ConstraintBuilder) -> (r: StartStage1)
        requires
            old(cb).wf(),
            old(cb).scope == RowScope::All,
            old(cb).condition is None,
            old(cb).has_room(2),
        ensures
            final(cb).wf(),
            final(cb).scope == RowScope::All,
            final(cb).condition is None,
            final(cb).curr == old(cb).curr,
            final(cb).next_column == old(cb).next_column + 2,
            r.num_arg == cell_at(old(cb).next_column as int),
            r.is_zero_num_arg.value == e_cell(r.num_arg),
            r.is_zero_num_arg.is_zero == e_is_zero(e_cell(r.num_arg), cell_at(old(cb).next_column + 1)),
            final(cb).constraints@ == old(cb).constraints@
                + start_stage1_constraints(old(cb).curr, r.num_arg, r.is_zero_num_arg.is_zero),
            final(cb).lookups@.len() == old(cb).lookups@.len() + 1,
            final(cb).lookups@.drop_last() == old(cb).lookups@,
            final(cb).lookups@.last().name == "entry function lookup",
            final(cb).lookups@.last().scope == RowScope::All,
            final(cb).lookups@.last().table == Table::Function,
            final(cb).lookups@.last().inputs@ == entry_lookup_inputs(old(cb).curr, r.num_arg),
            final(cb).requirements@.len() == old(cb).requirements@.len() + 10,
            final(cb).requirements@.take(old(cb).requirements@.len() as int + 5) == old(cb).requirements@ + seq![
                req(RowScope::All, None, Requirement::NoStackPop),
                req(RowScope::All, None, Requirement::NoStackPush),
                req(RowScope::All, None, Requirement::NoLocalOp),
            ] + transition_records(RowScope::All, Some(r.is_zero_num_arg.is_zero), enter_entry()),
            final(cb).requirements@[old(cb).requirements@.len() as int + 5].scope == RowScope::All,
            final(cb).requirements@[old(cb).requirements@.len() as int + 5].condition == Some(e_not(r.is_zero_num_arg.is_zero)),
            final(cb).requirements@[old(cb).requirements@.len() as int + 5].requirement matches Requirement::NextStates(v)
                && v@ == seq![ExecutionState::StartStage2],
            final(cb).requirements@.skip(old(cb).requirements@.len() as int + 6) == seq![
                req(RowScope::All, Some(e_not(r.is_zero_num_arg.is_zero)), Requirement::CellTransition(r.num_arg, Transition::Same)),
            ] + transition_records(RowScope::All, None, same_function()),
    {
        let num_arg = cb.query_cell();
        let is_zero_num_arg = IsZeroGadget::construct(cb, num_arg.expr());
        let s = cb.curr;

        cb.add_lookup(
            "entry function lookup",
            Lookup::Function {
                module_index: s.module_index.expr(),
                function_handle_index: s.aux0.expr(),
                def_module_index: s.module_index.expr(),
                function_index: s.function_index.expr(),
                num_arg: num_arg.expr(),
                entry: Expression::constant(1),
            },
        );
        let ghost l1 = cb.lookups@;
        cb.require_zero("frame_index = 0", s.frame_index.expr());
        cb.require_equal("StartStage1, step_counter(0) == 1", s.step_counter.expr(), Expression::constant(1));
        cb.require_no_stack_pop();
        cb.require_no_stack_push();
        cb.require_no_local_op();

        let c = cb.condition_begin(is_zero_num_arg.expr());
        cb.require_state_transitions(enter_entry_vec());
        cb.condition_end(c);
        let ghost m0 = cb.requirements@;
        let c = cb.condition_begin(Expression::not(is_zero_num_arg.expr()));
        cb.require_next_state(ExecutionState::StartStage2);
        let ghost m1 = cb.requirements@;
        cb.require_cell_transition(num_arg, Transition::Same);
        let local_index_next = s.local_index.at_offset(1).expr();
        cb.require_equal(
            "StartStage1, local_index(1) == num_arg(0) - 1",
            local_index_next,
            Expression::sub(num_arg.expr(), Expression::constant(1)),
        );
        cb.condition_end(c);
        cb.require_state_transitions(same_function_vec());
        proof {
            let k = old(cb).requirements@.len() as int;
            assert(cb.lookups@ == l1);
            assert(l1.last().inputs@ =~= entry_lookup_inputs(s, num_arg));
            assert(cb.constraints@ =~= old(cb).constraints@
                + start_stage1_constraints(s, num_arg, is_zero_num_arg.is_zero));
            assert(m0 =~= old(cb).requirements@ + seq![
                req(RowScope::All, None, Requirement::NoStackPop),
                req(RowScope::All, None, Requirement::NoStackPush),
                req(RowScope::All, None, Requirement::NoLocalOp),
            ] + transition_records(RowScope::All, Some(is_zero_num_arg.is_zero), enter_entry()));
            assert(m1.drop_last() == m0);
            assert(cb.requirements@.take(k + 6) =~= m1);
            assert(cb.requirements@.take(k + 5) =~= m0) by {
                assert(cb.requirements@.take(k + 5) =~= m1.take(k + 5));
                assert(m1.take(k + 5) =~= m1.drop_last());
            }
            assert(cb.requirements@[k + 5] == m1[k + 5]);
            assert(cb.requirements@.skip(k + 6) =~= seq![
                req(RowScope::All, Some(e_not(is_zero_num_arg.is_zero)), Requirement::CellTransition(num_arg, Transition::Same)),
            ] + transition_records(RowScope::All, None, same_function()));
        }
        StartStage1 { num_arg, is_zero_num_arg }
    }

    /// The witness for an entry function of `num_arg` arguments: the count
    /// and the `(inverse, result)` of its zero test.
    pub fn assign(&self, num_arg: u64) -> (r: (Fe, (Fe, Fe)))
        ensures
            r.0.val() == num_arg,
            r.1.1.val() == (if num_arg == 0 { 1nat } else { 0nat }),
            num_arg != 0 ==> (r.0.val() * r.1.0.val()) % crate::field::modulus() == 1,
            zero_test(num_arg as nat, r.1),
    {
        let n = Fe::from_u64(num_arg);
        (n, self.is_zero_num_arg.assign(&n))
    }
}

/// Stores one argument into the locals, one flattened limb per row. The next
/// stage is again `StartStage2` until every argument (down to local `0`) is
/// stored.
#[derive(Debug)]
pub struct StartStage2 {
    pub num_arg: Cell,
    pub is_zero_local_index: IsZeroGadget,
}

pub open spec fn start_stage2_constraints(s: StepState) -> Seq<Constraint> {
    let h = e_cell(s.local_write_value_header);
    seq![
        at(RowScope::First, "StartStage2, local_sub_index(0) == 0", e_cell(s.local_sub_index)),
        at(RowScope::First, "step_counter(0) == flen", e_mul(h, e_sub(e_cell(s.step_counter), e_cell(s.local_write_value.cells[0])))),
        at(RowScope::First, "StartStage2, step_counter(0) == 1", e_mul(e_not(h), e_sub(e_cell(s.step_counter), e_const(1)))),
        at(RowScope::All, "StartStage2, local_frame_index(0) == frame_index(0)",
            e_sub(e_cell(s.local_frame_index), e_cell(s.frame_index))),
        at(RowScope::All, "StartStage2, local_read_value_invalid == 1", e_sub(e_cell(s.local_read_value_invalid), e_const(1))),
        at(RowScope::All, "StartStage2, local_write_value_invalid == 0", e_cell(s.local_write_value_invalid)),
    ]
}

impl StartStage2 {
    #[verifier::rlimit(40)]
    pub fn configure(cb: &mut ConstraintBuilder) -> (r: StartStage2)
        requires
            old(cb).wf(),
            old(cb).scope == RowScope::All,
            old(cb).condition is None,
            old(cb).has_room(2),
        ensures
            final(cb).wf(),
            final(cb).scope == RowScope::All,
            final(cb).condition is None,
            final(cb).curr == old(cb).curr,
            final(cb).next_column == old(cb).next_column + 2,
            r.num_arg == cell_at(old(cb).next_column as int),
            r.is_zero_local_index.value == e_cell(old(cb).curr.local_index),
            r.is_zero_local_index.is_zero == e_is_zero(e_cell(old(cb).curr.local_index), cell_at(old(cb).next_column + 1)),
            final(cb).constraints@ == old(cb).constraints@ + start_stage2_constraints(old(cb).curr),
            final(cb).lookups == old(cb).lookups,
            final(cb).requirements@.len() == old(cb).requirements@.len() + 12,
            final(cb).requirements@[old(cb).requirements@.len() as int].scope == RowScope::First,
            final(cb).requirements@[old(cb).requirements@.len() as int].condition is None,
            final(cb).requirements@[old(cb).requirements@.len() as int].requirement matches Requirement::PrevStates(v)
                && v@ == seq![ExecutionState::StartStage1, ExecutionState::StartStage2],
            final(cb).requirements@.subrange(old(cb).requirements@.len() as int + 1, old(cb).requirements@.len() as int + 7)
                == seq![
                req(RowScope::All, None, Requirement::NoStackPop),
                req(RowScope::All, None, Requirement::NoStackPush),
                req(RowScope::NotLast, None, Requirement::CellTransition(old(cb).curr.local_index, Transition::Same)),
                req(RowScope::NotLast, None, Requirement::CellTransition(r.num_arg, Transition::Same)),
            ] + transition_records(RowScope::Last, Some(r.is_zero_local_index.is_zero), enter_entry()),
            final(cb).requirements@[old(cb).requirements@.len() as int + 7].scope == RowScope::Last,
            final(cb).requirements@[old(cb).requirements@.len() as int + 7].condition == Some(e_not(r.is_zero_local_index.is_zero)),
            final(cb).requirements@[old(cb).requirements@.len() as int + 7].requirement matches Requirement::NextStates(v)
                && v@ == seq![ExecutionState::StartStage2],
            final(cb).requirements@.skip(old(cb).requirements@.len() as int + 8) == seq![
                req(RowScope::Last, Some(e_not(r.is_zero_local_index.is_zero)),
                    Requirement::CellTransition(old(cb).curr.local_index, Transition::Delta(minus_one()))),
            ] + transition_records(RowScope::Last, None, same_function()),
    {
        let num_arg = cb.query_cell();
        let s = cb.curr;
        let is_zero_local_index = IsZeroGadget::construct(cb, s.local_index.expr());

        let prev = cb.scope_begin(RowScope::First);
        cb.require_prev_states(vec![ExecutionState::StartStage1, ExecutionState::StartStage2]);
        let ghost m0 = cb.requirements@;
        cb.require_zero("StartStage2, local_sub_index(0) == 0", s.local_sub_index.expr());
        let c = cb.condition_begin(s.local_write_value_header.expr());
        cb.require_equal("step_counter(0) == flen", s.step_counter.expr(), s.local_write_value.as_header().flen());
        cb.condition_end(c);
        let c = cb.condition_begin(Expression::not(s.local_write_value_header.expr()));
        cb.require_equal("StartStage2, step_counter(0) == 1", s.step_counter.expr(), Expression::constant(1));
        cb.condition_end(c);
        cb.scope_end(prev);

        cb.require_equal(
            "StartStage2, local_frame_index(0) == frame_index(0)",
            s.local_frame_index.expr(),
            s.frame_index.expr(),
        );
        cb.require_equal("StartStage2, local_read_value_invalid == 1", s.local_read_value_invalid.expr(), Expression::constant(1));
        cb.require_zero("StartStage2, local_write_value_invalid == 0", s.local_write_value_invalid.expr());
        cb.require_no_stack_pop();
        cb.require_no_stack_push();

        let prev = cb.scope_begin(RowScope::NotLast);
        cb.require_cell_transition(s.local_index, Transition::Same);
        cb.require_cell_transition(num_arg, Transition::Same);
        cb.scope_end(prev);

        let prev = cb.scope_begin(RowScope::Last);
        let c = cb.condition_begin(is_zero_local_index.expr());
        cb.require_state_transitions(enter_entry_vec());
        cb.condition_end(c);
        let ghost m1 = cb.requirements@;
        let c = cb.condition_begin(Expression::not(is_zero_local_index.expr()));
        cb.require_next_state(ExecutionState::StartStage2);
        let ghost m2 = cb.requirements@;
        cb.require_cell_transition(s.local_index, Transition::Delta(Expression::neg(Expression::constant(1))));
        cb.condition_end(c);
        cb.require_state_transitions(same_function_vec());
        cb.scope_end(prev);
        proof {
            let k = old(cb).requirements@.len() as int;
            assert(cb.constraints@ =~= old(cb).constraints@ + start_stage2_constraints(s));
            assert(m0.len() == k + 1);
            assert(m1 =~= m0 + seq![
                req(RowScope::All, None, Requirement::NoStackPop),
                req(RowScope::All, None, Requirement::NoStackPush),
                req(RowScope::NotLast, None, Requirement::CellTransition(s.local_index, Transition::Same)),
                req(RowScope::NotLast, None, Requirement::CellTransition(num_arg, Transition::Same)),
            ] + transition_records(RowScope::Last, Some(is_zero_local_index.is_zero), enter_entry()));
            assert(m2.drop_last() == m1);
            assert(cb.requirements@.take(k + 8) =~= m2);
            assert(cb.requirements@[k] == m0[k]) by {
                assert(cb.requirements@[k] == cb.requirements@.take(k + 8)[k]);
                assert(m2[k] == m1[k]);
            }
            assert(cb.requirements@.subrange(k + 1, k + 7) =~= m1.subrange(k + 1, k + 7)) by {
                assert(cb.requirements@.subrange(k + 1, k + 7) =~= m2.subrange(k + 1, k + 7));
            }
            assert(cb.requirements@[k + 7] == m2[k + 7]);
            assert(cb.requirements@.skip(k + 8) =~= seq![
                req(RowScope::Last, Some(e_not(is_zero_local_index.is_zero)),
                    Requirement::CellTransition(s.local_index, Transition::Delta(minus_one()))),
            ] + transition_records(RowScope::Last, None, same_function()));
        }
        StartStage2 { num_arg, is_zero_local_index }
    }

    /// The witness of each row: `num_arg` as at the row before the stage, and
    /// the zero test of the row's local index.
    pub fn assign(&self, prev_num_arg: Fe, local_indices: &Vec<u64>) -> (r: Vec<(Fe, (Fe, Fe))>)
        ensures
            r@.len() == local_indices@.len(),
            forall|i: int| 0 <= i < r@.len() ==> (#[trigger] r@[i]).0 == prev_num_arg
                && r@[i].1.1.val() == (if local_indices@[i] == 0 { 1nat } else { 0nat })
                && zero_test(local_indices@[i] as nat, r@[i].1),
    {
        let mut r: Vec<(Fe, (Fe, Fe))> = Vec::new();
        let mut i: usize = 0;
        while i < local_indices.len()
            invariant
                i <= local_indices@.len(),
                r@.len() == i,
                forall|k: int| 0 <= k < i ==> (#[trigger] r@[k]).0 == prev_num_arg
                    && r@[k].1.1.val() == (if local_indices@[k] == 0 { 1nat } else { 0nat })
                    && zero_test(local_indices@[k] as nat, r@[k].1),
            decreases local_indices.len() - i,
        {
            let li = Fe::from_u64(local_indices[i]);
            r.push((prev_num_arg, self.is_zero_local_index.assign(&li)));
            i = i + 1;
        }
        r
    }
}

} // verus!
