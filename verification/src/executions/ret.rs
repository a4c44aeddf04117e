use vstd::prelude::*;
use crate::builder::{Constraint, ConstraintBuilder, RowScope, Requirement, Transition, at, e_in_set, guarded, req,
    transition_records};
use crate::call_stack::CallContext;
use crate::executions::add_sub::cell_at;
use crate::executions::common::{e_opcodes, minus_one, opcode_exprs};
use crate::expr::{Cell, Expression, e_cell, e_const, e_not, e_sub};
use crate::field::Fe;
use crate::math_gadgets::is_zero::{IsZeroGadget, e_is_zero, zero_test};
use crate::opcode::Opcode;
use crate::step::{StateField, StepState};

verus! {

/// `Ret`: returns to the caller recorded in the call context of the frame;
/// from the outermost frame (frame index `0`) the context is empty.
#[derive(Debug)]
pub struct Ret {
    pub call_context: CallContext<Cell>,
    pub is_zero_frame_index: IsZeroGadget,
    pub call_context_version: Cell,
}

/// The constraints of `Ret` with its cells from column `c`: the call context
/// (`c .. c + 5`), the inverse of the frame index (`c + 5`) and the version of
/// the context (`c + 6`).
pub open spec fn ret_constraints(s: StepState, c: int) -> Seq<Constraint> {
    let n = s.spec_at_offset(1);
    let z = e_is_zero(e_cell(s.frame_index), cell_at(c + 5));
    let nz = Some(e_not(z));
    seq![
        at(RowScope::All, "opcode in OPCODES", e_in_set(e_cell(s.opcode), e_opcodes(seq![Opcode::Ret]))),
        at(RowScope::All, "step_counter(0) == 1", e_sub(e_cell(s.step_counter), e_const(1))),
        at(RowScope::All, "index == 0", guarded(Some(z), e_cell(cell_at(c)))),
        at(RowScope::All, "caller_module_index == 0", guarded(Some(z), e_cell(cell_at(c + 1)))),
        at(RowScope::All, "caller_function_index == 0", guarded(Some(z), e_cell(cell_at(c + 2)))),
        at(RowScope::All, "caller_pc == 0", guarded(Some(z), e_cell(cell_at(c + 3)))),
        at(RowScope::All, "version == 0", guarded(Some(z), e_cell(cell_at(c + 4)))),
        at(RowScope::All, "call_context.index == index", guarded(nz, e_sub(e_cell(cell_at(c)), e_cell(n.frame_index)))),
        at(RowScope::All, "call_context.caller_module_index == caller_module_index",
            guarded(nz, e_sub(e_cell(cell_at(c + 1)), e_cell(n.module_index)))),
        at(RowScope::All, "call_context.caller_function_index == caller_function_index",
            guarded(nz, e_sub(e_cell(cell_at(c + 2)), e_cell(n.function_index)))),
        at(RowScope::All, "call_context.caller_pc == caller_pc",
            guarded(nz, e_sub(e_cell(cell_at(c + 3)), e_sub(e_cell(n.pc), e_const(1))))),
        at(RowScope::All, "call_context.version == version",
            guarded(nz, e_sub(e_cell(cell_at(c + 4)), e_cell(cell_at(c + 6))))),
    ]
}

/// Back in the caller's frame, with the stack as it is.
pub open spec fn ret_exit() -> Seq<(StateField, Transition)> {
    seq![(StateField::FrameIndex, Transition::Delta(minus_one())), (StateField::Sp, Transition::Same)]
}

impl Ret {
    #[verifier::rlimit(40)]
    pub fn configure(cb: &mut ConstraintBuilder) -> (r: Ret)
        requires
            old(cb).wf(),
            old(cb).scope == RowScope::All,
            old(cb).condition is None,
            old(cb).has_room(7),
        ensures
            final(cb).wf(),
            final(cb).scope == RowScope::All,
            final(cb).condition is None,
            final(cb).curr == old(cb).curr,
            final(cb).next_column == old(cb).next_column + 7,
            r.call_context.cells() == Seq::new(5, |i: int| cell_at(old(cb).next_column + i)),
            r.is_zero_frame_index.value == e_cell(old(cb).curr.frame_index),
            r.is_zero_frame_index.is_zero == e_is_zero(e_cell(old(cb).curr.frame_index), cell_at(old(cb).next_column + 5)),
            r.call_context_version == cell_at(old(cb).next_column + 6),
            final(cb).lookups == old(cb).lookups,
            final(cb).constraints@ == old(cb).constraints@ + ret_constraints(old(cb).curr, old(cb).next_column as int),
            final(cb).requirements@ == old(cb).requirements@ + seq![
                req(RowScope::All, None, Requirement::NoStackPop),
                req(RowScope::All, None, Requirement::NoStackPush),
                req(RowScope::All, None, Requirement::NoLocalOp),
            ] + transition_records(RowScope::All, Some(e_not(r.is_zero_frame_index.is_zero)), ret_exit()),
    {
        let s = cb.curr;
        let ghost c = cb.next_column as int;
        let call_context = CallContext::<Cell>::construct(cb);
        let is_zero_frame_index = IsZeroGadget::construct(cb, s.frame_index.expr());
        let call_context_version = cb.query_cell();
        let ops = [Opcode::Ret];
        cb.require_in_set("opcode in OPCODES", s.opcode.expr(), opcode_exprs(&ops));
        cb.require_equal("step_counter(0) == 1", s.step_counter.expr(), Expression::constant(1));
        cb.require_no_stack_pop();
        cb.require_no_stack_push();
        cb.require_no_local_op();
        let cnd = cb.condition_begin(is_zero_frame_index.expr());
        call_context.require_zero(cb);
        cb.condition_end(cnd);
        let cnd = cb.condition_begin(Expression::not(is_zero_frame_index.expr()));
        let exit = vec![
            (StateField::FrameIndex, Transition::Delta(Expression::neg(Expression::constant(1)))),
            (StateField::Sp, Transition::Same),
        ];
        proof {
            assert(exit@ =~= ret_exit());
        }
        cb.require_state_transitions(exit);
        let n = cb.step_state_at_offset(1);
        call_context.configure(
            cb,
            n.frame_index.expr(),
            n.module_index.expr(),
            n.function_index.expr(),
            Expression::sub(n.pc.expr(), Expression::constant(1)),
            call_context_version.expr(),
        );
        cb.condition_end(cnd);
        proof {
            assert(ops@ =~= seq![Opcode::Ret]);
            assert(call_context.cells()[0] == call_context.index);
            assert(call_context.cells()[4] == call_context.version);
            assert(cb.constraints@ =~= old(cb).constraints@ + ret_constraints(s, c));
            assert(cb.requirements@ =~= old(cb).requirements@ + seq![
                req(RowScope::All, None, Requirement::NoStackPop),
                req(RowScope::All, None, Requirement::NoStackPush),
                req(RowScope::All, None, Requirement::NoLocalOp),
            ] + transition_records(RowScope::All, Some(e_not(is_zero_frame_index.is_zero)), ret_exit()));
        }
        Ret { call_context, is_zero_frame_index, call_context_version }
    }
}

/// The caller that a return goes back to.
#[derive(Clone, Copy, Debug)]
pub struct RetCaller {
    pub caller_frame_index: u64,
    pub caller_module_index: u64,
    pub caller_function_index: u64,
    pub caller_pc: u64,
}

/// The witness of `Ret`: the call context (frame, module, function, pc,
/// version), the version of the context, and the zero test of the frame index.
#[derive(Debug)]
pub struct RetWitness {
    pub call_context: [Fe; 5],
    pub call_context_version: Fe,
    pub is_zero_frame_index: (Fe, Fe),
}

impl Ret {
    /// The witness of a return to `caller` (none from the outermost frame)
    /// from a frame of version `frame_version`.
    pub fn assign(&self, caller: Option<RetCaller>, frame_version: u64) -> (r: RetWitness)
        requires
            caller is Some ==> caller->0.caller_frame_index < u64::MAX,
        ensures
            r.call_context[4].val() == frame_version,
            r.call_context_version.val() == frame_version,
            match caller {
                Some(c) => {
                    &&& r.call_context[0].val() == c.caller_frame_index
                    &&& r.call_context[1].val() == c.caller_module_index
                    &&& r.call_context[2].val() == c.caller_function_index
                    &&& r.call_context[3].val() == c.caller_pc
                    &&& r.is_zero_frame_index.1.val() == 0
                    &&& zero_test((c.caller_frame_index + 1) as nat, r.is_zero_frame_index)
                },
                None => {
                    &&& r.call_context[0].val() == 0
                    &&& r.call_context[1].val() == 0
                    &&& r.call_context[2].val() == 0
                    &&& r.call_context[3].val() == 0
                    &&& r.is_zero_frame_index.1.val() == 1
                    &&& zero_test(0, r.is_zero_frame_index)
                },
            },
    {
        let version = Fe::from_u64(frame_version);
        match caller {
            Some(c) => {
                let frame = Fe::from_u64(c.caller_frame_index + 1);
                RetWitness {
                    call_context: [
                        Fe::from_u64(c.caller_frame_index),
                        Fe::from_u64(c.caller_module_index),
                        Fe::from_u64(c.caller_function_index),
                        Fe::from_u64(c.caller_pc),
                        version,
                    ],
                    call_context_version: version,
                    is_zero_frame_index: self.is_zero_frame_index.assign(&frame),
                }
            },
            None => {
                let zero = Fe::zero();
                RetWitness {
                    call_context: [zero, zero, zero, zero, version],
                    call_context_version: version,
                    is_zero_frame_index: self.is_zero_frame_index.assign(&zero),
                }
            },
        }
    }
}

} // verus!
