use vstd::prelude::*;
use crate::builder::{Constraint, ConstraintBuilder, RequirementRecord, RowScope, Requirement, Transition, at, e_in_set,
    req, transition_records};
use crate::call_stack::CallContext;
use crate::executions::add_sub::cell_at;
use crate::executions::common::{e_opcodes, minus_one, opcode_exprs, same_location, same_location_vec};
use crate::lookup_table::{Lookup, Table};
use crate::math_gadgets::is_zero::{IsZeroGadget, e_is_zero, zero_test};
use crate::opcode::Opcode;
use crate::expr::{Cell, Expression, e_add, e_and2, e_cell, e_const, e_mul, e_not, e_sub};
use crate::field::Fe;
use crate::step::{ExecutionState, StateField, StepState, rotate};

verus! {

/// The second stage of `Call`: copies one argument, one flattened limb per
/// row, from a local of the caller into a local of the next frame. `num_arg`
/// is carried from row to row.
#[derive(Debug)]
pub struct CallStage2 {
    pub num_arg: Cell,
}

/// `1` on a row that reads a valid value which is a header.
pub open spec fn e_valid_complex_value(s: StepState) -> Expression {
    e_and2(e_not(e_cell(s.local_read_value_invalid)), e_cell(s.stack_pop_value_header))
}

pub open spec fn call_stage2_constraints(s: StepState) -> Seq<Constraint> {
    let valid = e_valid_complex_value(s);
    seq![
        at(RowScope::First, "local_sub_index(0) == 0", e_cell(s.local_sub_index)),
        at(RowScope::First, "step_counter(0) == flen", e_mul(valid, e_sub(e_cell(s.step_counter), e_cell(s.stack_pop_value.cells[0])))),
        at(RowScope::First, "step_counter(0) == 1", e_mul(e_not(valid), e_sub(e_cell(s.step_counter), e_const(1)))),
        at(RowScope::All, "local_frame_index(0) == frame_index(0) + 1",
            e_sub(e_cell(s.local_frame_index), e_add(e_cell(s.frame_index), e_const(1)))),
        at(RowScope::All, "local_write_value_invalid == 1", e_sub(e_cell(s.local_write_value_invalid), e_const(1))),
        at(RowScope::All, "local_write_value(0) == local_read_value(0)",
            e_sub(s.local_write_value.spec_expr(), s.local_read_value.spec_expr())),
        at(RowScope::All, "local_write_value_header(0) == local_read_value_header(0)",
            e_sub(e_cell(s.local_write_value_header), e_cell(s.local_read_value_header))),
        at(RowScope::All, "local_write_version(0) == clk(0)", e_sub(e_cell(s.local_write_version), e_cell(s.clk))),
    ]
}

/// The location of the call carries over.
pub open spec fn call_stage2_exit() -> Seq<(StateField, Transition)> {
    seq![
        (StateField::Pc, Transition::Same),
        (StateField::Opcode, Transition::Same),
        (StateField::Aux0, Transition::Same),
        (StateField::Aux1, Transition::Same),
    ]
}

impl CallStage2 {
    pub fn configure(cb: &mut ConstraintBuilder) -> (r: CallStage2)
        requires
            old(cb).wf(),
            old(cb).scope == RowScope::All,
            old(cb).condition is None,
            old(cb).has_room(1),
        ensures
            final(cb).wf(),
            final(cb).scope == RowScope::All,
            final(cb).condition is None,
            final(cb).curr == old(cb).curr,
            final(cb).next_column == old(cb).next_column + 1,
            r.num_arg == (Cell { column: old(cb).next_column, rotation: 0 }),
            final(cb).lookups == old(cb).lookups,
            final(cb).constraints@ == old(cb).constraints@ + call_stage2_constraints(old(cb).curr),
            final(cb).requirements@.len() == old(cb).requirements@.len() + 11,
            final(cb).requirements@.take(old(cb).requirements@.len() as int) == old(cb).requirements@,
            final(cb).requirements@[old(cb).requirements@.len() as int].scope == RowScope::First,
            final(cb).requirements@[old(cb).requirements@.len() as int].condition is None,
            final(cb).requirements@[old(cb).requirements@.len() as int].requirement matches Requirement::PrevStates(v)
                && v@ == seq![ExecutionState::CallStage1, ExecutionState::CallStage3],
            final(cb).requirements@.subrange(old(cb).requirements@.len() as int + 1, old(cb).requirements@.len() as int + 6)
                == seq![
                req(RowScope::All, None, Requirement::NoStackPop),
                req(RowScope::All, None, Requirement::NoStackPush),
                req(RowScope::All, None, Requirement::StateTransition(StateField::Sp, Transition::Same)),
                req(RowScope::All, None, Requirement::CellTransition(old(cb).curr.local_index, Transition::Same)),
                req(RowScope::All, None, Requirement::CellTransition(r.num_arg, Transition::Same)),
            ],
            final(cb).requirements@[old(cb).requirements@.len() as int + 6].scope == RowScope::Last,
            final(cb).requirements@[old(cb).requirements@.len() as int + 6].condition is None,
            final(cb).requirements@[old(cb).requirements@.len() as int + 6].requirement matches Requirement::NextStates(v)
                && v@ == seq![ExecutionState::CallStage3],
            final(cb).requirements@.skip(old(cb).requirements@.len() as int + 7)
                == transition_records(RowScope::Last, None, call_stage2_exit()),
    {
        let num_arg = cb.query_cell();
        let s = cb.curr;
        let k0 = cb.requirements.len();
        let prev = cb.scope_begin(RowScope::First);
        cb.require_prev_states(vec![ExecutionState::CallStage1, ExecutionState::CallStage3]);
        let ghost m0 = cb.requirements@;
        cb.require_zero("local_sub_index(0) == 0", s.local_sub_index.expr());
        let valid_complex_value = Expression::and2(
            Expression::not(s.local_read_value_invalid.expr()),
            s.stack_pop_value_header.expr(),
        );
        let c = cb.condition_begin(valid_complex_value.copy());
        cb.require_equal("step_counter(0) == flen", s.step_counter.expr(), s.stack_pop_value.as_header().flen());
        cb.condition_end(c);
        let c = cb.condition_begin(Expression::not(valid_complex_value));
        cb.require_equal("step_counter(0) == 1", s.step_counter.expr(), Expression::constant(1));
        cb.condition_end(c);
        cb.scope_end(prev);

        cb.require_no_stack_pop();
        cb.require_no_stack_push();
        cb.require_equal(
            "local_frame_index(0) == frame_index(0) + 1",
            s.local_frame_index.expr(),
            Expression::add(s.frame_index.expr(), Expression::constant(1)),
        );
        cb.require_true("local_write_value_invalid == 1", s.local_write_value_invalid.expr());
        cb.require_equal(
            "local_write_value(0) == local_read_value(0)",
            s.local_write_value.expr(),
            s.local_read_value.expr(),
        );
        cb.require_equal(
            "local_write_value_header(0) == local_read_value_header(0)",
            s.local_write_value_header.expr(),
            s.local_read_value_header.expr(),
        );
        cb.require_equal("local_write_version(0) == clk(0)", s.local_write_version.expr(), s.clk.expr());
        cb.require_state_transition(StateField::Sp, Transition::Same);
        cb.require_cell_transition(s.local_index, Transition::Same);
        cb.require_cell_transition(num_arg, Transition::Same);
        let ghost m1 = cb.requirements@;

        let prev = cb.scope_begin(RowScope::Last);
        cb.require_next_state(ExecutionState::CallStage3);
        let ghost m2 = cb.requirements@;
        let exit = vec![
            (StateField::Pc, Transition::Same),
            (StateField::Opcode, Transition::Same),
            (StateField::Aux0, Transition::Same),
            (StateField::Aux1, Transition::Same),
        ];
        proof {
            assert(exit@ =~= call_stage2_exit());
        }
        cb.require_state_transitions(exit);
        cb.scope_end(prev);
        proof {
            let k = k0 as int;
            assert(m1 =~= m0 + seq![
                req(RowScope::All, None, Requirement::NoStackPop),
                req(RowScope::All, None, Requirement::NoStackPush),
                req(RowScope::All, None, Requirement::StateTransition(StateField::Sp, Transition::Same)),
                req(RowScope::All, None, Requirement::CellTransition(s.local_index, Transition::Same)),
                req(RowScope::All, None, Requirement::CellTransition(num_arg, Transition::Same)),
            ]);
            assert(m2.drop_last() == m1);
            assert(cb.requirements@.take(k + 7) =~= m2);
            assert(m0.len() == k + 1);
            assert(m1.take(k + 1) =~= m0);
            assert(m2.take(k + 1) =~= m0) by {
                assert(m2.take(k + 1) =~= m2.drop_last().take(k + 1));
            }
            assert(cb.requirements@.take(k + 1) =~= m0) by {
                assert(cb.requirements@.take(k + 1) =~= cb.requirements@.take(k + 7).take(k + 1));
            }
            assert(cb.requirements@.take(k) =~= old(cb).requirements@) by {
                assert(m0.take(k) =~= old(cb).requirements@);
                assert(cb.requirements@.take(k) =~= cb.requirements@.take(k + 1).take(k));
            }
            assert(cb.requirements@[k] == cb.requirements@.take(k + 1)[k]);
            assert(cb.requirements@.subrange(k + 1, k + 6) =~= m1.subrange(k + 1, k + 6));
            assert(cb.requirements@[k + 6] == m2[k + 6]);
            assert(cb.requirements@.skip(k + 7) =~= transition_records(RowScope::Last, None, call_stage2_exit()));
            assert(cb.constraints@ =~= old(cb).constraints@ + call_stage2_constraints(s));
        }
        CallStage2 { num_arg }
    }

    /// The value of `num_arg` at each of the `rows` rows: the value it has at
    /// the row before the stage.
    pub fn assign(&self, prev_num_arg: Fe, rows: usize) -> (r: Vec<Fe>)
        ensures
            r@.len() == rows,
            forall|i: int| 0 <= i < rows ==> #[trigger] r@[i] == prev_num_arg,
    {
        let mut r: Vec<Fe> = Vec::new();
        let mut i: usize = 0;
        while i < rows
            invariant
                i <= rows,
                r@.len() == i,
                forall|k: int| 0 <= k < i ==> #[trigger] r@[k] == prev_num_arg,
            decreases rows - i,
        {
            r.push(prev_num_arg);
            i = i + 1;
        }
        r
    }
}

/// The first stage of `Call`: reads the number of arguments of the callee;
/// without arguments it enters the callee (looking the function up), else it
/// goes on to the second stage with the last argument's local.
#[derive(Debug)]
pub struct CallStage1 {
    pub num_arg: Cell,
    pub call_context: CallContext<Expression>,
    pub is_zero_num_arg: IsZeroGadget,
}

/// The function-table row that a call enters: the callee's module and
/// function (those of the next step), the number of arguments and
/// `entry == 0`, each scaled by `condition`.
pub open spec fn call_lookup_inputs(s: StepState, num_arg: Cell, condition: Expression) -> Seq<Expression> {
    let n = s.spec_at_offset(1);
    seq![e_cell(n.module_index), e_cell(n.function_index), e_cell(num_arg), e_const(0)].map_values(|e: Expression| e_mul(condition, e))
}

/// Entering the callee: pc `0` and one frame more.
pub open spec fn enter_callee() -> Seq<(StateField, Transition)> {
    seq![(StateField::Pc, Transition::To(e_const(0))), (StateField::FrameIndex, Transition::Delta(e_const(1)))]
}

/// The same location as in `same_location`, under a condition.
pub open spec fn call_stay(condition: Expression) -> Seq<RequirementRecord> {
    transition_records(RowScope::All, Some(condition), same_location())
}

impl CallStage1 {
    #[verifier::rlimit(40)]
    pub fn configure(cb: &mut ConstraintBuilder) -> (r: CallStage1)
        requires
            old(cb).wf(),
            old(cb).scope == RowScope::All,
            old(cb).condition is None,
            old(cb).has_room(2),
        ensures
            final(cb).wf(),
            final(cb).scope == RowScope::All,
            final(cb).condition is None,
            final(cb).curr == old(cb).curr,
            final(cb).next_column == old(cb).next_column + 2,
            r.num_arg == cell_at(old(cb).next_column as int),
            r.is_zero_num_arg.is_zero == e_is_zero(e_cell(r.num_arg), cell_at(old(cb).next_column + 1)),
            r.call_context.index == e_cell(old(cb).curr.frame_index),
            r.call_context.caller_module_index == e_cell(old(cb).curr.module_index),
            r.call_context.caller_function_index == e_cell(old(cb).curr.function_index),
            r.call_context.caller_pc == e_cell(old(cb).curr.pc),
            r.call_context.version == e_cell(old(cb).curr.clk),
            final(cb).constraints@ == old(cb).constraints@ + seq![
                at(RowScope::All, "opcode in OPCODES", e_in_set(e_cell(old(cb).curr.opcode), e_opcodes(seq![Opcode::Call]))),
                at(RowScope::All, "step_counter(0) == 1", e_sub(e_cell(old(cb).curr.step_counter), e_const(1))),
                at(RowScope::All, "local_index(1) == num_arg(0) - 1", e_mul(e_not(r.is_zero_num_arg.is_zero),
                    e_sub(e_cell(rotate(old(cb).curr.local_index, 1)), e_sub(e_cell(r.num_arg), e_const(1))))),
            ],
            final(cb).lookups@.len() == old(cb).lookups@.len() + 1,
            final(cb).lookups@.drop_last() == old(cb).lookups@,
            final(cb).lookups@.last().name == "function lookup",
            final(cb).lookups@.last().scope == RowScope::All,
            final(cb).lookups@.last().table == Table::Function,
            final(cb).lookups@.last().inputs@ == call_lookup_inputs(old(cb).curr, r.num_arg, r.is_zero_num_arg.is_zero),
            final(cb).requirements@.len() == old(cb).requirements@.len() + 15,
            final(cb).requirements@.take(old(cb).requirements@.len() as int + 6) == old(cb).requirements@ + seq![
                req(RowScope::All, None, Requirement::NoStackPop),
                req(RowScope::All, None, Requirement::NoStackPush),
                req(RowScope::All, None, Requirement::NoLocalOp),
                req(RowScope::All, None, Requirement::StateTransition(StateField::Sp, Transition::Same)),
            ] + transition_records(RowScope::All, Some(r.is_zero_num_arg.is_zero), enter_callee()),
            final(cb).requirements@[old(cb).requirements@.len() as int + 6].scope == RowScope::All,
            final(cb).requirements@[old(cb).requirements@.len() as int + 6].condition == Some(e_not(r.is_zero_num_arg.is_zero)),
            final(cb).requirements@[old(cb).requirements@.len() as int + 6].requirement matches Requirement::NextStates(v)
                && v@ == seq![ExecutionState::CallStage2],
            final(cb).requirements@.skip(old(cb).requirements@.len() as int + 7) == seq![
                req(RowScope::All, Some(e_not(r.is_zero_num_arg.is_zero)), Requirement::CellTransition(r.num_arg, Transition::Same)),
            ] + call_stay(e_not(r.is_zero_num_arg.is_zero)),
    {
        let num_arg = cb.query_cell();
        let is_zero_num_arg = IsZeroGadget::construct(cb, num_arg.expr());
        let s = cb.curr;
        let n = cb.step_state_at_offset(1);
        let ops = [Opcode::Call];
        cb.require_in_set("opcode in OPCODES", s.opcode.expr(), opcode_exprs(&ops));
        cb.require_equal("step_counter(0) == 1", s.step_counter.expr(), Expression::constant(1));
        cb.require_no_stack_pop();
        cb.require_no_stack_push();
        cb.require_no_local_op();
        cb.require_state_transition(StateField::Sp, Transition::Same);
        let call_context = CallContext {
            index: s.frame_index.expr(),
            caller_module_index: s.module_index.expr(),
            caller_function_index: s.function_index.expr(),
            caller_pc: s.pc.expr(),
            version: s.clk.expr(),
        };
        let c = cb.condition_begin(is_zero_num_arg.expr());
        cb.add_lookup(
            "function lookup",
            Lookup::Function {
                module_index: s.module_index.expr(),
                function_handle_index: s.aux0.expr(),
                def_module_index: n.module_index.expr(),
                function_index: n.function_index.expr(),
                num_arg: num_arg.expr(),
                entry: Expression::constant(0),
            },
        );
        let ghost l1 = cb.lookups@;
        let enter = vec![
            (StateField::Pc, Transition::To(Expression::constant(0))),
            (StateField::FrameIndex, Transition::Delta(Expression::constant(1))),
        ];
        proof {
            assert(enter@ =~= enter_callee());
        }
        cb.require_state_transitions(enter);
        cb.condition_end(c);
        let ghost m0 = cb.requirements@;
        let c = cb.condition_begin(Expression::not(is_zero_num_arg.expr()));
        cb.require_next_state(ExecutionState::CallStage2);
        let ghost m1 = cb.requirements@;
        cb.require_cell_transition(num_arg, Transition::Same);
        let local_index_next = s.local_index.at_offset(1).expr();
        cb.require_equal(
            "local_index(1) == num_arg(0) - 1",
            local_index_next,
            Expression::sub(num_arg.expr(), Expression::constant(1)),
        );
        cb.require_state_transitions(same_location_vec());
        cb.condition_end(c);
        proof {
            let k = old(cb).requirements@.len() as int;
            assert(cb.lookups@ == l1);
            assert(l1.last().inputs@ =~= call_lookup_inputs(s, num_arg, is_zero_num_arg.is_zero));
            assert(ops@ =~= seq![Opcode::Call]);
            assert(cb.constraints@ =~= old(cb).constraints@ + seq![
                at(RowScope::All, "opcode in OPCODES", e_in_set(e_cell(s.opcode), e_opcodes(seq![Opcode::Call]))),
                at(RowScope::All, "step_counter(0) == 1", e_sub(e_cell(s.step_counter), e_const(1))),
                at(RowScope::All, "local_index(1) == num_arg(0) - 1", e_mul(e_not(is_zero_num_arg.is_zero),
                    e_sub(e_cell(rotate(s.local_index, 1)), e_sub(e_cell(num_arg), e_const(1))))),
            ]);
            assert(m0 =~= old(cb).requirements@ + seq![
                req(RowScope::All, None, Requirement::NoStackPop),
                req(RowScope::All, None, Requirement::NoStackPush),
                req(RowScope::All, None, Requirement::NoLocalOp),
                req(RowScope::All, None, Requirement::StateTransition(StateField::Sp, Transition::Same)),
            ] + transition_records(RowScope::All, Some(is_zero_num_arg.is_zero), enter_callee()));
            assert(m1.drop_last() == m0);
            assert(cb.requirements@.take(k + 7) =~= m1);
            assert(cb.requirements@.take(k + 6) =~= m0) by {
                assert(cb.requirements@.take(k + 6) =~= m1.take(k + 6));
                assert(m1.take(k + 6) =~= m1.drop_last());
            }
            assert(cb.requirements@[k + 6] == m1[k + 6]);
            assert(cb.requirements@.skip(k + 7) =~= seq![
                req(RowScope::All, Some(e_not(is_zero_num_arg.is_zero)), Requirement::CellTransition(num_arg, Transition::Same)),
            ] + call_stay(e_not(is_zero_num_arg.is_zero)));
        }
        CallStage1 { num_arg, call_context, is_zero_num_arg }
    }

    /// The witness for a callee of `num_arg` arguments: the count and the
    /// `(inverse, result)` of its zero test.
    pub fn assign(&self, num_arg: u64) -> (r: (Fe, (Fe, Fe)))
        ensures
            r.0.val() == num_arg,
            r.1.1.val() == (if num_arg == 0 { 1nat } else { 0nat }),
            zero_test(num_arg as nat, r.1),
    {
        let n = Fe::from_u64(num_arg);
        (n, self.is_zero_num_arg.assign(&n))
    }
}

/// The third stage of `Call`: pops an argument, one flattened limb per row,
/// and writes it into local `local_index` of the next frame; after the last
/// argument (local 0) it enters the callee.
#[derive(Debug)]
pub struct CallStage3 {
    pub num_arg: Cell,
    pub is_zero_local_index: IsZeroGadget,
}

pub open spec fn call_stage3_constraints(s: StepState) -> Seq<Constraint> {
    let h = e_cell(s.stack_pop_value_header);
    seq![
        at(RowScope::First, "stack_pop_sub_index(0) == 0", e_cell(s.stack_pop_sub_index)),
        at(RowScope::First, "step_counter(0) == flen", e_mul(h, e_sub(e_cell(s.step_counter), e_cell(s.stack_pop_value.cells[0])))),
        at(RowScope::First, "step_counter(0) == 1", e_mul(e_not(h), e_sub(e_cell(s.step_counter), e_const(1)))),
        at(RowScope::All, "stack_pop_index(0) == sp(0)", e_sub(e_cell(s.stack_pop_index), e_cell(s.sp))),
        at(RowScope::All, "local_frame_index(0) == frame_index(0) + 1",
            e_sub(e_cell(s.local_frame_index), e_add(e_cell(s.frame_index), e_const(1)))),
        at(RowScope::All, "local_sub_index(0) == stack_pop_sub_index(0)",
            e_sub(e_cell(s.local_sub_index), e_cell(s.stack_pop_sub_index))),
        at(RowScope::All, "local_read_value_invalid == 1", e_sub(e_cell(s.local_read_value_invalid), e_const(1))),
        at(RowScope::All, "local_write_value(0) == stack_pop_value(0)",
            e_sub(s.local_write_value.spec_expr(), s.stack_pop_value.spec_expr())),
        at(RowScope::All, "local_write_value_header(0) == stack_pop_value_header(0)",
            e_sub(e_cell(s.local_write_value_header), e_cell(s.stack_pop_value_header))),
        at(RowScope::All, "local_write_value_invalid == 0", e_cell(s.local_write_value_invalid)),
        at(RowScope::All, "local_write_version(0) == clk(0)", e_sub(e_cell(s.local_write_version), e_cell(s.clk))),
    ]
}

impl CallStage3 {
    #[verifier::rlimit(40)]
    pub fn configure(cb: &mut ConstraintBuilder) -> (r: CallStage3)
        requires
            old(cb).wf(),
            old(cb).scope == RowScope::All,
            old(cb).condition is None,
            old(cb).has_room(2),
        ensures
            final(cb).wf(),
            final(cb).scope == RowScope::All,
            final(cb).condition is None,
            final(cb).curr == old(cb).curr,
            final(cb).next_column == old(cb).next_column + 2,
            r.num_arg == cell_at(old(cb).next_column as int),
            r.is_zero_local_index.is_zero == e_is_zero(e_cell(old(cb).curr.local_index), cell_at(old(cb).next_column + 1)),
            final(cb).constraints@ == old(cb).constraints@ + call_stage3_constraints(old(cb).curr),
            final(cb).lookups@.len() == old(cb).lookups@.len() + 1,
            final(cb).lookups@.drop_last() == old(cb).lookups@,
            final(cb).lookups@.last().name == "function lookup",
            final(cb).lookups@.last().scope == RowScope::Last,
            final(cb).lookups@.last().table == Table::Function,
            final(cb).lookups@.last().inputs@ == call_lookup_inputs(old(cb).curr, r.num_arg, r.is_zero_local_index.is_zero),
            final(cb).requirements@.len() == old(cb).requirements@.len() + 16,
            final(cb).requirements@.take(old(cb).requirements@.len() as int + 7) == old(cb).requirements@ + seq![
                req(RowScope::All, None, Requirement::NoStackPush),
                req(RowScope::NotLast, None, Requirement::StateTransition(StateField::Sp, Transition::Same)),
                req(RowScope::NotLast, None, Requirement::CellTransition(old(cb).curr.local_index, Transition::Same)),
                req(RowScope::NotLast, None, Requirement::CellTransition(r.num_arg, Transition::Same)),
                req(RowScope::Last, None, Requirement::StateTransition(StateField::Sp, Transition::Delta(minus_one()))),
            ] + transition_records(RowScope::Last, Some(r.is_zero_local_index.is_zero), seq![
                (StateField::FrameIndex, Transition::Delta(e_const(1))),
                (StateField::Pc, Transition::To(e_const(0))),
            ]),
            final(cb).requirements@[old(cb).requirements@.len() as int + 7].scope == RowScope::Last,
            final(cb).requirements@[old(cb).requirements@.len() as int + 7].condition == Some(e_not(r.is_zero_local_index.is_zero)),
            final(cb).requirements@[old(cb).requirements@.len() as int + 7].requirement matches Requirement::NextStates(v)
                && v@ == seq![ExecutionState::CallStage2],
            final(cb).requirements@.skip(old(cb).requirements@.len() as int + 8) == seq![
                req(RowScope::Last, Some(e_not(r.is_zero_local_index.is_zero)),
                    Requirement::CellTransition(old(cb).curr.local_index, Transition::Delta(minus_one()))),
            ] + transition_records(RowScope::Last, Some(e_not(r.is_zero_local_index.is_zero)), same_location()),
    {
        let num_arg = cb.query_cell();
        let s = cb.curr;
        let is_zero_local_index = IsZeroGadget::construct(cb, s.local_index.expr());
        let n = cb.step_state_at_offset(1);

        let prev = cb.scope_begin(RowScope::First);
        cb.require_zero("stack_pop_sub_index(0) == 0", s.stack_pop_sub_index.expr());
        let c = cb.condition_begin(s.stack_pop_value_header.expr());
        cb.require_equal("step_counter(0) == flen", s.step_counter.expr(), s.stack_pop_value.as_header().flen());
        cb.condition_end(c);
        let c = cb.condition_begin(Expression::not(s.stack_pop_value_header.expr()));
        cb.require_equal("step_counter(0) == 1", s.step_counter.expr(), Expression::constant(1));
        cb.condition_end(c);
        cb.scope_end(prev);

        cb.require_equal("stack_pop_index(0) == sp(0)", s.stack_pop_index.expr(), s.sp.expr());
        cb.require_equal(
            "local_frame_index(0) == frame_index(0) + 1",
            s.local_frame_index.expr(),
            Expression::add(s.frame_index.expr(), Expression::constant(1)),
        );
        cb.require_equal("local_sub_index(0) == stack_pop_sub_index(0)", s.local_sub_index.expr(), s.stack_pop_sub_index.expr());
        cb.require_equal("local_read_value_invalid == 1", s.local_read_value_invalid.expr(), Expression::constant(1));
        cb.require_equal("local_write_value(0) == stack_pop_value(0)", s.local_write_value.expr(), s.stack_pop_value.expr());
        cb.require_equal(
            "local_write_value_header(0) == stack_pop_value_header(0)",
            s.local_write_value_header.expr(),
            s.stack_pop_value_header.expr(),
        );
        cb.require_zero("local_write_value_invalid == 0", s.local_write_value_invalid.expr());
        cb.require_equal("local_write_version(0) == clk(0)", s.local_write_version.expr(), s.clk.expr());
        cb.require_no_stack_push();

        let prev = cb.scope_begin(RowScope::NotLast);
        cb.require_state_transition(StateField::Sp, Transition::Same);
        cb.require_cell_transition(s.local_index, Transition::Same);
        cb.require_cell_transition(num_arg, Transition::Same);
        cb.scope_end(prev);

        let prev = cb.scope_begin(RowScope::Last);
        cb.require_state_transition(StateField::Sp, Transition::Delta(Expression::neg(Expression::constant(1))));
        let c = cb.condition_begin(is_zero_local_index.expr());
        cb.add_lookup(
            "function lookup",
            Lookup::Function {
                module_index: s.module_index.expr(),
                function_handle_index: s.aux0.expr(),
                def_module_index: n.module_index.expr(),
                function_index: n.function_index.expr(),
                num_arg: num_arg.expr(),
                entry: Expression::constant(0),
            },
        );
        let ghost l1 = cb.lookups@;
        let enter = vec![
            (StateField::FrameIndex, Transition::Delta(Expression::constant(1))),
            (StateField::Pc, Transition::To(Expression::constant(0))),
        ];
        proof {
            assert(enter@ =~= seq![
                (StateField::FrameIndex, Transition::Delta(e_const(1))),
                (StateField::Pc, Transition::To(e_const(0))),
            ]);
        }
        cb.require_state_transitions(enter);
        cb.condition_end(c);
        let ghost m0 = cb.requirements@;
        let c = cb.condition_begin(Expression::not(is_zero_local_index.expr()));
        cb.require_next_state(ExecutionState::CallStage2);
        let ghost m1 = cb.requirements@;
        cb.require_cell_transition(s.local_index, Transition::Delta(Expression::neg(Expression::constant(1))));
        cb.require_state_transitions(same_location_vec());
        cb.condition_end(c);
        cb.scope_end(prev);
        proof {
            let k = old(cb).requirements@.len() as int;
            assert(cb.lookups@ == l1);
            assert(l1.last().inputs@ =~= call_lookup_inputs(s, num_arg, is_zero_local_index.is_zero));
            assert(cb.constraints@ =~= old(cb).constraints@ + call_stage3_constraints(s));
            assert(m0 =~= old(cb).requirements@ + seq![
                req(RowScope::All, None, Requirement::NoStackPush),
                req(RowScope::NotLast, None, Requirement::StateTransition(StateField::Sp, Transition::Same)),
                req(RowScope::NotLast, None, Requirement::CellTransition(s.local_index, Transition::Same)),
                req(RowScope::NotLast, None, Requirement::CellTransition(num_arg, Transition::Same)),
                req(RowScope::Last, None, Requirement::StateTransition(StateField::Sp, Transition::Delta(minus_one()))),
            ] + transition_records(RowScope::Last, Some(is_zero_local_index.is_zero), seq![
                (StateField::FrameIndex, Transition::Delta(e_const(1))),
                (StateField::Pc, Transition::To(e_const(0))),
            ]));
            assert(m1.drop_last() == m0);
            assert(cb.requirements@.take(k + 8) =~= m1);
            assert(cb.requirements@.take(k + 7) =~= m0) by {
                assert(cb.requirements@.take(k + 7) =~= m1.take(k + 7));
                assert(m1.take(k + 7) =~= m1.drop_last());
            }
            assert(cb.requirements@[k + 7] == m1[k + 7]);
            assert(cb.requirements@.skip(k + 8) =~= seq![
                req(RowScope::Last, Some(e_not(is_zero_local_index.is_zero)),
                    Requirement::CellTransition(s.local_index, Transition::Delta(minus_one()))),
            ] + transition_records(RowScope::Last, Some(e_not(is_zero_local_index.is_zero)), same_location()));
        }
        CallStage3 { num_arg, is_zero_local_index }
    }

    /// The witness of each row: `num_arg` as at the row before the stage, and
    /// the zero test of the row's local index.
    pub fn assign(&self, prev_num_arg: Fe, local_indices: &Vec<u64>) -> (r: Vec<(Fe, (Fe, Fe))>)
        ensures
            r@.len() == local_indices@.len(),
            forall|i: int| 0 <= i < r@.len() ==> (#[trigger] r@[i]).0 == prev_num_arg
                && r@[i].1.1.val() == (if local_indices@[i] == 0 { 1nat } else { 0nat })
                && zero_test(local_indices@[i] as nat, r@[i].1),
    {
        let mut r: Vec<(Fe, (Fe, Fe))> = Vec::new();
        let mut i: usize = 0;
        while i < local_indices.len()
            invariant
                i <= local_indices@.len(),
                r@.len() == i,
                forall|k: int| 0 <= k < i ==> (#[trigger] r@[k]).0 == prev_num_arg
                    && r@[k].1.1.val() == (if local_indices@[k] == 0 { 1nat } else { 0nat })
                    && zero_test(local_indices@[k] as nat, r@[k].1),
            decreases local_indices.len() - i,
        {
            let li = Fe::from_u64(local_indices[i]);
            r.push((prev_num_arg, self.is_zero_local_index.assign(&li)));
            i = i + 1;
        }
        r
    }
}

} // verus!
