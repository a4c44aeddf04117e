use vstd::prelude::*;
use crate::builder::{Constraint, ConstraintBuilder, RowScope, Requirement, Transition, at, byte_range_records,
    e_boolean, e_in_set, fresh_cells, req, transition_records};
use crate::executions::common::{e_opcodes, minus_one, opcode_exprs};
use crate::expr::{Cell, Expression, e_add, e_cell, e_const, e_mul, e_sub};
use crate::opcode::Opcode;
use crate::step::{StateField, StepState};
use crate::field::Fe;
use crate::sub_index::{ExtendedSubIndex, ExtendedSubIndexWitness, ext_sub_index_witness, e_depth_pow,
    ext_sub_index_polys, limb_exprs, polys_at};

verus! {

/// `MutBorrowField` (`MUTABLE`) or `ImmBorrowField`: pops a reference to a
/// struct and pushes a reference to its field `aux0`.
#[derive(Debug)]
pub struct BorrowField<const MUTABLE: bool> {
    pub stack_pop_value_sub_index: ExtendedSubIndex<8>,
}

pub open spec fn borrow_field_opcode(mutable: bool) -> Opcode {
    if mutable { Opcode::MutBorrowField } else { Opcode::ImmBorrowField }
}

/// `concat(sub_index, x)` of an extended sub index: `sub_index + x * 2^(16 depth)`.
pub open spec fn e_concat(ext: ExtendedSubIndex<8>, x: Expression) -> Expression {
    e_add(ext.sub_index, e_mul(x, e_depth_pow(ext.mask@)))
}

pub open spec fn borrow_field_head(mutable: bool, s: StepState) -> Seq<Constraint> {
    seq![
        at(RowScope::All, "opcode in OPCODES", e_in_set(e_cell(s.opcode), e_opcodes(seq![borrow_field_opcode(mutable)]))),
        at(RowScope::All, "stack_pop_index(0) == sp(0)", e_sub(e_cell(s.stack_pop_index), e_cell(s.sp))),
        at(RowScope::All, "stack_pop_sub_index(0) == 0", e_cell(s.stack_pop_sub_index)),
        at(RowScope::All, "stack_push_value(0).index == stack_pop_value(0).index",
            e_sub(e_cell(s.stack_push_value.cells[0]), e_cell(s.stack_pop_value.cells[0]))),
    ]
}

pub open spec fn borrow_field_tail(s: StepState, ext: ExtendedSubIndex<8>) -> Seq<Constraint> {
    seq![
        at(RowScope::All, "stack_push_value(0).sub_index == stack_pop_value(0).sub_index.concat(aux0(0) + 1)",
            e_sub(e_cell(s.stack_push_value.cells[1]), e_concat(ext, e_add(e_cell(s.aux0), e_const(1))))),
        at(RowScope::All, "stack_push_value_header(0) == stack_pop_value_header(0)",
            e_sub(e_cell(s.stack_push_value_header), e_cell(s.stack_pop_value_header))),
        at(RowScope::All, "stack_push_index(0) == sp(0)", e_sub(e_cell(s.stack_push_index), e_cell(s.sp))),
        at(RowScope::All, "stack_push_sub_index(0) == 0", e_cell(s.stack_push_sub_index)),
        at(RowScope::All, "stack_push_version(0) == clk(0)", e_sub(e_cell(s.stack_push_version), e_cell(s.clk))),
    ]
}

/// Same frame, module, function and stack pointer; next instruction.
pub open spec fn in_place_exit() -> Seq<(StateField, Transition)> {
    seq![
        (StateField::FrameIndex, Transition::Same),
        (StateField::ModuleIndex, Transition::Same),
        (StateField::FunctionIndex, Transition::Same),
        (StateField::Sp, Transition::Same),
        (StateField::Pc, Transition::Delta(e_const(1))),
    ]
}

impl<const MUTABLE: bool> BorrowField<MUTABLE> {
    #[verifier::rlimit(40)]
    pub fn configure(cb: &mut ConstraintBuilder) -> (r: Self)
        requires
            old(cb).wf(),
            old(cb).scope == RowScope::All,
            old(cb).condition is None,
            old(cb).has_room(41),
        ensures
            final(cb).wf(),
            final(cb).scope == RowScope::All,
            final(cb).condition is None,
            final(cb).curr == old(cb).curr,
            final(cb).next_column == old(cb).next_column + 41,
            r.stack_pop_value_sub_index.sub_index == e_cell(old(cb).curr.stack_pop_value.cells[1]),
            r.stack_pop_value_sub_index.bytes@.len() == 32,
            fresh_cells(r.stack_pop_value_sub_index.bytes@, old(cb).next_column as nat),
            r.stack_pop_value_sub_index.limbs@ == limb_exprs(r.stack_pop_value_sub_index.bytes@, 8),
            r.stack_pop_value_sub_index.mask@.len() == 8,
            fresh_cells(r.stack_pop_value_sub_index.mask@, (old(cb).next_column + 32) as nat),
            r.stack_pop_value_sub_index.reverse_limb == (Cell { column: (old(cb).next_column + 40) as usize, rotation: 0 }),
            final(cb).lookups@.len() == old(cb).lookups@.len() + 32,
            final(cb).lookups@.take(old(cb).lookups@.len() as int) == old(cb).lookups@,
            byte_range_records(final(cb).lookups@.skip(old(cb).lookups@.len() as int), r.stack_pop_value_sub_index.bytes@,
                RowScope::All, None),
            final(cb).constraints@ == old(cb).constraints@ + borrow_field_head(MUTABLE, old(cb).curr)
                + Seq::new(8, |i: int| at(RowScope::All, "Constrain cell to be a bool",
                    e_boolean(e_cell(r.stack_pop_value_sub_index.mask@[i]))))
                + polys_at(ext_sub_index_polys(8, r.stack_pop_value_sub_index.sub_index, r.stack_pop_value_sub_index.limbs@,
                    r.stack_pop_value_sub_index.mask@, r.stack_pop_value_sub_index.reverse_limb), RowScope::All, None)
                + borrow_field_tail(old(cb).curr, r.stack_pop_value_sub_index),
            final(cb).requirements@ == old(cb).requirements@ + seq![req(RowScope::All, None, Requirement::NoLocalOp)]
                + transition_records(RowScope::All, None, in_place_exit()),
    {
        let s = cb.curr;
        let ops = [if MUTABLE { Opcode::MutBorrowField } else { Opcode::ImmBorrowField }];
        cb.require_in_set("opcode in OPCODES", s.opcode.expr(), opcode_exprs(&ops));
        cb.require_equal("stack_pop_index(0) == sp(0)", s.stack_pop_index.expr(), s.sp.expr());
        cb.require_zero("stack_pop_sub_index(0) == 0", s.stack_pop_sub_index.expr());
        cb.require_equal(
            "stack_push_value(0).index == stack_pop_value(0).index",
            s.stack_push_value.as_reference().index(),
            s.stack_pop_value.as_reference().index(),
        );
        let ghost c0 = cb.constraints@;
        let ext = ExtendedSubIndex::<8>::construct(cb, s.stack_pop_value.as_reference().sub_index());
        let ghost c1 = cb.constraints@;
        cb.require_equal(
            "stack_push_value(0).sub_index == stack_pop_value(0).sub_index.concat(aux0(0) + 1)",
            s.stack_push_value.as_reference().sub_index(),
            ext.concat(Expression::add(s.aux0.expr(), Expression::constant(1))),
        );
        cb.require_equal(
            "stack_push_value_header(0) == stack_pop_value_header(0)",
            s.stack_push_value_header.expr(),
            s.stack_pop_value_header.expr(),
        );
        cb.require_equal("stack_push_index(0) == sp(0)", s.stack_push_index.expr(), s.sp.expr());
        cb.require_zero("stack_push_sub_index(0) == 0", s.stack_push_sub_index.expr());
        cb.require_equal("stack_push_version(0) == clk(0)", s.stack_push_version.expr(), s.clk.expr());
        cb.require_no_local_op();
        let exit = vec![
            (StateField::FrameIndex, Transition::Same),
            (StateField::ModuleIndex, Transition::Same),
            (StateField::FunctionIndex, Transition::Same),
            (StateField::Sp, Transition::Same),
            (StateField::Pc, Transition::Delta(Expression::constant(1))),
        ];
        proof {
            assert(exit@ =~= in_place_exit());
        }
        cb.require_state_transitions(exit);
        proof {
            assert(ops@ =~= seq![borrow_field_opcode(MUTABLE)]);
            assert(c0 =~= old(cb).constraints@ + borrow_field_head(MUTABLE, s));
            assert(c1 =~= c0 + Seq::new(8, |i: int| at(RowScope::All, "Constrain cell to be a bool",
                    e_boolean(e_cell(ext.mask@[i]))))
                + polys_at(ext_sub_index_polys(8, ext.sub_index, ext.limbs@, ext.mask@, ext.reverse_limb), RowScope::All, None));
            assert(cb.constraints@ =~= c1 + borrow_field_tail(s, ext));
            assert(cb.requirements@ =~= old(cb).requirements@ + seq![req(RowScope::All, None, Requirement::NoLocalOp)]
                + transition_records(RowScope::All, None, in_place_exit()));
        }
        BorrowField { stack_pop_value_sub_index: ext }
    }

    /// The witness of the sub index of the popped reference.
    pub fn assign(&self, stack_pop_sub_index: &Fe) -> (r: ExtendedSubIndexWitness)
        ensures
            ext_sub_index_witness(stack_pop_sub_index.val(), r),
    {
        self.stack_pop_value_sub_index.assign(stack_pop_sub_index)
    }
}

/// `VecMutBorrow` or `VecImmBorrow`: pops an index (first row) and a vector
/// reference (last row) and pushes a reference to the element.
#[derive(Debug)]
pub struct VecBorrow {
    pub vec_ref_sub_index: ExtendedSubIndex<8>,
}

pub open spec fn vec_borrow_constraints(s: StepState, p: StepState, ext: ExtendedSubIndex<8>) -> Seq<Constraint> {
    seq![
        at(RowScope::First, "opcode in OPCODES",
            e_in_set(e_cell(s.opcode), e_opcodes(seq![Opcode::VecMutBorrow, Opcode::VecImmBorrow]))),
        at(RowScope::First, "step_counter(0) == 2", e_sub(e_cell(s.step_counter), e_const(2))),
        at(RowScope::First, "stack_pop_index(0) == sp(0)", e_sub(e_cell(s.stack_pop_index), e_cell(s.sp))),
        at(RowScope::All, "stack_pop_sub_index(0) == 0", e_cell(s.stack_pop_sub_index)),
        at(RowScope::All, "stack_pop_value_header(0) == false", e_cell(s.stack_pop_value_header)),
        at(RowScope::Last, "stack_pop_index(0) == sp(0) - 1", e_sub(e_cell(s.stack_pop_index), e_sub(e_cell(s.sp), e_const(1)))),
        at(RowScope::Last, "stack_push_index(0) == sp(0) - 1", e_sub(e_cell(s.stack_push_index), e_sub(e_cell(s.sp), e_const(1)))),
        at(RowScope::Last, "stack_push_sub_index(0) == 0", e_cell(s.stack_push_sub_index)),
        at(RowScope::Last, "stack_push_value(0).as_reference().index == stack_pop_value(0).as_reference().index",
            e_sub(e_cell(s.stack_push_value.cells[0]), e_cell(s.stack_pop_value.cells[0]))),
        at(RowScope::Last,
            "stack_push_value(0).as_reference().sub_index == stack_pop_value(0).as_reference().sub_index.concat(popped_index + 1)",
            e_sub(e_cell(s.stack_push_value.cells[1]), e_concat(ext, e_add(e_cell(p.stack_pop_value.cells[0]), e_const(1))))),
        at(RowScope::Last, "stack_push_value_header(0) == stack_pop_value_header(0)",
            e_sub(e_cell(s.stack_push_value_header), e_cell(s.stack_pop_value_header))),
        at(RowScope::Last, "stack_push_version(0) == clk(0)", e_sub(e_cell(s.stack_push_version), e_cell(s.clk))),
    ]
}

/// Same frame, module and function; next instruction; one slot freed.
pub open spec fn vec_borrow_exit() -> Seq<(StateField, Transition)> {
    seq![
        (StateField::FrameIndex, Transition::Same),
        (StateField::ModuleIndex, Transition::Same),
        (StateField::FunctionIndex, Transition::Same),
        (StateField::Pc, Transition::Delta(e_const(1))),
        (StateField::Sp, Transition::Delta(minus_one())),
    ]
}

impl VecBorrow {
    #[verifier::rlimit(40)]
    pub fn configure(cb: &mut ConstraintBuilder) -> (r: VecBorrow)
        requires
            old(cb).wf(),
            old(cb).scope == RowScope::All,
            old(cb).condition is None,
            old(cb).has_room(41),
        ensures
            final(cb).wf(),
            final(cb).scope == RowScope::All,
            final(cb).condition is None,
            final(cb).curr == old(cb).curr,
            final(cb).next_column == old(cb).next_column + 41,
            r.vec_ref_sub_index.sub_index == e_cell(old(cb).curr.stack_pop_value.cells[1]),
            r.vec_ref_sub_index.bytes@.len() == 32,
            fresh_cells(r.vec_ref_sub_index.bytes@, old(cb).next_column as nat),
            r.vec_ref_sub_index.limbs@ == limb_exprs(r.vec_ref_sub_index.bytes@, 8),
            r.vec_ref_sub_index.mask@.len() == 8,
            fresh_cells(r.vec_ref_sub_index.mask@, (old(cb).next_column + 32) as nat),
            r.vec_ref_sub_index.reverse_limb == (Cell { column: (old(cb).next_column + 40) as usize, rotation: 0 }),
            final(cb).lookups@.len() == old(cb).lookups@.len() + 32,
            final(cb).lookups@.take(old(cb).lookups@.len() as int) == old(cb).lookups@,
            byte_range_records(final(cb).lookups@.skip(old(cb).lookups@.len() as int), r.vec_ref_sub_index.bytes@,
                RowScope::All, None),
            final(cb).constraints@ == old(cb).constraints@
                + Seq::new(8, |i: int| at(RowScope::All, "Constrain cell to be a bool",
                    e_boolean(e_cell(r.vec_ref_sub_index.mask@[i]))))
                + polys_at(ext_sub_index_polys(8, r.vec_ref_sub_index.sub_index, r.vec_ref_sub_index.limbs@,
                    r.vec_ref_sub_index.mask@, r.vec_ref_sub_index.reverse_limb), RowScope::All, None)
                + vec_borrow_constraints(old(cb).curr, old(cb).curr.spec_at_offset(-1), r.vec_ref_sub_index),
            final(cb).requirements@ == old(cb).requirements@ + seq![
                req(RowScope::First, None, Requirement::NoStackPush),
                req(RowScope::First, None, Requirement::StateTransition(StateField::Sp, Transition::Same)),
                req(RowScope::All, None, Requirement::NoLocalOp),
            ] + transition_records(RowScope::Last, None, vec_borrow_exit()),
    {
        let s = cb.curr;
        let p = cb.step_state_at_offset(-1);
        let ghost c0 = cb.constraints@;
        let ext = ExtendedSubIndex::<8>::construct(cb, s.stack_pop_value.as_reference().sub_index());
        let ghost c1 = cb.constraints@;
        let prev = cb.scope_begin(RowScope::First);
        let ops = [Opcode::VecMutBorrow, Opcode::VecImmBorrow];
        cb.require_in_set("opcode in OPCODES", s.opcode.expr(), opcode_exprs(&ops));
        cb.require_equal("step_counter(0) == 2", s.step_counter.expr(), Expression::constant(2));
        cb.require_no_stack_push();
        cb.require_equal("stack_pop_index(0) == sp(0)", s.stack_pop_index.expr(), s.sp.expr());
        cb.require_state_transition(StateField::Sp, Transition::Same);
        cb.scope_end(prev);
        cb.require_zero("stack_pop_sub_index(0) == 0", s.stack_pop_sub_index.expr());
        cb.require_zero("stack_pop_value_header(0) == false", s.stack_pop_value_header.expr());
        cb.require_no_local_op();
        let prev = cb.scope_begin(RowScope::Last);
        cb.require_equal(
            "stack_pop_index(0) == sp(0) - 1",
            s.stack_pop_index.expr(),
            Expression::sub(s.sp.expr(), Expression::constant(1)),
        );
        cb.require_equal(
            "stack_push_index(0) == sp(0) - 1",
            s.stack_push_index.expr(),
            Expression::sub(s.sp.expr(), Expression::constant(1)),
        );
        cb.require_zero("stack_push_sub_index(0) == 0", s.stack_push_sub_index.expr());
        cb.require_equal(
            "stack_push_value(0).as_reference().index == stack_pop_value(0).as_reference().index",
            s.stack_push_value.as_reference().index(),
            s.stack_pop_value.as_reference().index(),
        );
        let popped_index = Expression::add(p.stack_pop_value.as_integer().lo(), Expression::constant(1));
        cb.require_equal(
            "stack_push_value(0).as_reference().sub_index == stack_pop_value(0).as_reference().sub_index.concat(popped_index + 1)",
            s.stack_push_value.as_reference().sub_index(),
            ext.concat(popped_index),
        );
        cb.require_equal(
            "stack_push_value_header(0) == stack_pop_value_header(0)",
            s.stack_push_value_header.expr(),
            s.stack_pop_value_header.expr(),
        );
        cb.require_equal("stack_push_version(0) == clk(0)", s.stack_push_version.expr(), s.clk.expr());
        let exit = vec![
            (StateField::FrameIndex, Transition::Same),
            (StateField::ModuleIndex, Transition::Same),
            (StateField::FunctionIndex, Transition::Same),
            (StateField::Pc, Transition::Delta(Expression::constant(1))),
            (StateField::Sp, Transition::Delta(Expression::neg(Expression::constant(1)))),
        ];
        proof {
            assert(exit@ =~= vec_borrow_exit());
        }
        cb.require_state_transitions(exit);
        cb.scope_end(prev);
        proof {
            assert(ops@ =~= seq![Opcode::VecMutBorrow, Opcode::VecImmBorrow]);
            assert(c1 =~= c0 + Seq::new(8, |i: int| at(RowScope::All, "Constrain cell to be a bool",
                    e_boolean(e_cell(ext.mask@[i]))))
                + polys_at(ext_sub_index_polys(8, ext.sub_index, ext.limbs@, ext.mask@, ext.reverse_limb), RowScope::All, None));
            assert(cb.constraints@ =~= c1 + vec_borrow_constraints(s, p, ext));
            assert(cb.requirements@ =~= old(cb).requirements@ + seq![
                req(RowScope::First, None, Requirement::NoStackPush),
                req(RowScope::First, None, Requirement::StateTransition(StateField::Sp, Transition::Same)),
                req(RowScope::All, None, Requirement::NoLocalOp),
            ] + transition_records(RowScope::Last, None, vec_borrow_exit()));
        }
        VecBorrow { vec_ref_sub_index: ext }
    }

    /// The witness of the sub index of the vector reference, the same at each
    /// of the `rows` rows.
    pub fn assign(&self, vec_ref_sub_index: &Fe, rows: usize) -> (r: Vec<ExtendedSubIndexWitness>)
        ensures
            r@.len() == rows,
            forall|i: int| 0 <= i < rows ==> ext_sub_index_witness(vec_ref_sub_index.val(), #[trigger] r@[i]),
    {
        let mut r: Vec<ExtendedSubIndexWitness> = Vec::new();
        let mut i: usize = 0;
        while i < rows
            invariant
                i <= rows,
                r@.len() == i,
                forall|k: int| 0 <= k < i ==> ext_sub_index_witness(vec_ref_sub_index.val(), #[trigger] r@[k]),
            decreases rows - i,
        {
            r.push(self.vec_ref_sub_index.assign(vec_ref_sub_index));
            i = i + 1;
        }
        r
    }
}

} // verus!
