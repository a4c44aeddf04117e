use vstd::prelude::*;
use vstd::arithmetic::power2::lemma2_to64;
use crate::builder::{Constraint, ConstraintBuilder, RowScope, Requirement, Transition, at, byte_range_records,
    e_boolean, e_in_set, fresh_cells, req, transition_records};
use crate::executions::common::{e_opcodes, opcode_exprs};
use crate::expr::{Cell, Expression, Witness, e_add, e_cell, e_const, e_mul, e_neg, e_sub, eval};
use crate::field::{Fe, fe_sub, lemma_modulus_bounds, modulus};
use crate::math_gadgets::is_zero::{IsZeroGadget, e_is_zero, lemma_is_zero_sound, zero_test};
use crate::opcode::Opcode;
use crate::step::{ExecutionState, Index, StateField, StepState, rotate};
use crate::sub_index::{DEPTH_POW_OF_ONE_LEVEL, ExtendedSubIndex, ExtendedSubIndexWitness, ext_sub_index_witness,
    e_depth_pow, e_parent_sub_index, ext_sub_index_polys, limb_exprs, polys_at};

verus! {

/// A 16-bit word held in two byte cells, low byte first.
#[derive(Debug)]
pub struct WordU16 {
    pub lo: Cell,
    pub hi: Cell,
}

/// `lo + hi * 2^8`.
pub open spec fn e_word_u16(lo: Cell, hi: Cell) -> Expression {
    e_add(e_cell(lo), e_mul(e_cell(hi), e_const(256)))
}

impl WordU16 {
    /// Two fresh byte cells.
    pub fn construct(cb: &mut ConstraintBuilder) -> (r: WordU16)
        requires
            old(cb).has_room(2),
        ensures
            r.lo == (Cell { column: old(cb).next_column, rotation: 0 }),
            r.hi == (Cell { column: (old(cb).next_column + 1) as usize, rotation: 0 }),
            final(cb).next_column == old(cb).next_column + 2,
            final(cb).lookups@.len() == old(cb).lookups@.len() + 2,
            final(cb).lookups@.take(old(cb).lookups@.len() as int) == old(cb).lookups@,
            byte_range_records(final(cb).lookups@.skip(old(cb).lookups@.len() as int), seq![r.lo, r.hi],
                old(cb).scope, old(cb).condition),
            final(cb).constraints == old(cb).constraints,
            final(cb).requirements == old(cb).requirements,
            final(cb).curr == old(cb).curr,
            final(cb).scope == old(cb).scope,
            final(cb).condition == old(cb).condition,
    {
        let cells = cb.query_bytes(2);
        proof {
            assert(cells@ =~= seq![cells@[0], cells@[1]]);
        }
        WordU16 { lo: cells[0], hi: cells[1] }
    }

    /// The word made of two cells, low byte first.
    pub fn new(cells: &Vec<Cell>) -> (r: WordU16)
        requires
            cells@.len() == 2,
        ensures
            r.lo == cells@[0],
            r.hi == cells@[1],
    {
        WordU16 { lo: cells[0], hi: cells[1] }
    }

    pub fn cells(&self) -> (r: Vec<Cell>)
        ensures
            r@ == seq![self.lo, self.hi],
    {
        vec![self.lo, self.hi]
    }

    pub fn lo(&self) -> (r: Cell)
        ensures
            r == self.lo,
    {
        self.lo
    }

    pub fn hi(&self) -> (r: Cell)
        ensures
            r == self.hi,
    {
        self.hi
    }

    pub fn expr(&self) -> (r: Expression)
        ensures
            r == e_word_u16(self.lo, self.hi),
    {
        Expression::add(self.lo.expr(), Expression::mul(self.hi.expr(), Expression::constant(256)))
    }

    /// The two bytes of `value`, low byte first.
    pub fn assign(value: u16) -> (r: (u8, u8))
        ensures
            r.0 + 256 * r.1 == value,
    {
        ((value % 256) as u8, (value / 256) as u8)
    }
}

/// `VecPushBack`, first stage: pops the vector reference and walks from the
/// referenced local's root down to the vector's header, one row per level,
/// growing each header's flattened length; the last row also grows the
/// vector's length by one, which must stay below `2^16 - 1`.
#[derive(Debug)]
pub struct VecPushBackStage1 {
    pub vector_sub_index: Cell,
    pub extended_local_sub_index_of_next_row: ExtendedSubIndex<8>,
    pub vector_origin_len: WordU16,
    pub is_ori_len_max_u16: IsZeroGadget,
    pub is_zero_gadget: IsZeroGadget,
}

/// `local_sub_index(0) - local_sub_index(1)`.
pub open spec fn e_sub_index_step(s: StepState) -> Expression {
    e_sub(e_cell(s.local_sub_index), e_cell(s.spec_at_offset(1).local_sub_index))
}

/// `2^16 - 1 - vector_origin_len`.
pub open spec fn e_room_left(word: WordU16) -> Expression {
    e_sub(e_sub(Expression::PowerOfTwo(16), e_const(1)), e_word_u16(word.lo, word.hi))
}

/// The rows that the first stage opens with and the ones before the walk.
pub open spec fn vec_push_back_stage1_head(s: StepState, vsi: Cell) -> Seq<Constraint> {
    let p = s.spec_at_offset(-1);
    seq![
        at(RowScope::First, "opcode in OPCODES", e_in_set(e_cell(s.opcode), e_opcodes(seq![Opcode::VecPushBack]))),
        at(RowScope::First, "stack_pop_index(0) == sp(0) - 1", e_sub(e_cell(s.stack_pop_index), e_sub(e_cell(s.sp), e_const(1)))),
        at(RowScope::First, "stack_pop_sub_index(0) == 0", e_cell(s.stack_pop_sub_index)),
        at(RowScope::First, "(local_frame_index(0), local_index(0)) == stack_pop_value(0).index",
            e_sub(Index { frame_index: e_cell(s.local_frame_index), local_index: e_cell(s.local_index) }.spec_expr(),
                e_cell(s.stack_pop_value.cells[0]))),
        at(RowScope::First, "vector_sub_index(0) == stack_pop_value(0).sub_index",
            e_sub(e_cell(vsi), e_cell(s.stack_pop_value.cells[1]))),
        at(RowScope::First, "local_sub_index(0)==0", e_cell(s.local_sub_index)),
        at(RowScope::NotFirst, "local_frame_index(0) == local_frame_index(-1)",
            e_sub(e_cell(s.local_frame_index), e_cell(p.local_frame_index))),
        at(RowScope::NotFirst, "local_index(0) == local_index(-1)", e_sub(e_cell(s.local_index), e_cell(p.local_index))),
        at(RowScope::NotFirst, "vector_sub_index(0) == vector_sub_index(-1)",
            e_sub(e_cell(vsi), e_cell(rotate(vsi, -1)))),
    ]
}

/// The constraints of the walk down to the header and of the header updates.
pub open spec fn vec_push_back_stage1_tail(s: StepState, vsi: Cell, word: WordU16, iz_max: IsZeroGadget)
    -> Seq<Constraint> {
    let n = s.spec_at_offset(1);
    seq![
        at(RowScope::Last, "local_sub_index(0) == vector_sub_index(0)", e_sub(e_cell(s.local_sub_index), e_cell(vsi))),
        at(RowScope::All, "local_read_value_header(0) == true", e_sub(e_cell(s.local_read_value_header), e_const(1))),
        at(RowScope::All, "local_read_value_invalid(0)==false", e_cell(s.local_read_value_invalid)),
        at(RowScope::All, "local_write_value_header(0) == true", e_sub(e_cell(s.local_write_value_header), e_const(1))),
        at(RowScope::All, "local_write_value_invalid(0)==false", e_cell(s.local_write_value_invalid)),
        at(RowScope::All, "local_write_version(0) == clk(0)", e_sub(e_cell(s.local_write_version), e_cell(s.clk))),
        at(RowScope::NotLast,
            "local_write_value(0).flen - local_read_value(0).flen == local_write_value(1).flen - local_read_value(1).flen",
            e_sub(e_sub(e_cell(s.local_write_value.cells[0]), e_cell(s.local_read_value.cells[0])),
                e_sub(e_cell(n.local_write_value.cells[0]), e_cell(n.local_read_value.cells[0])))),
        at(RowScope::NotLast, "local_read_value(0).as_header().len == local_write_value(0).as_header().len",
            e_sub(e_cell(s.local_read_value.cells[1]), e_cell(s.local_write_value.cells[1]))),
        at(RowScope::Last, "local_read_value(0).as_header().flen + step_counter(1) == local_write_value(0).as_header().flen",
            e_sub(e_add(e_cell(s.local_read_value.cells[0]), e_cell(n.step_counter)), e_cell(s.local_write_value.cells[0]))),
        at(RowScope::Last, "local_read_value(0).as_header().len + 1 == local_write_value(0).as_header().len",
            e_sub(e_add(e_cell(s.local_read_value.cells[1]), e_const(1)), e_cell(s.local_write_value.cells[1]))),
        at(RowScope::Last, "vector_origin_len(0) == local_read_value(0).as_header().len",
            e_sub(e_cell(s.local_read_value.cells[1]), e_word_u16(word.lo, word.hi))),
    ] + polys_at(iz_max.spec_constraints(), RowScope::Last, None)
    + seq![at(RowScope::Last, "vector_origin_len(0) != 2^16-1", iz_max.is_zero)]
}

/// All the constraints of the first stage after the bits of the mask.
pub open spec fn vec_push_back_stage1_constraints(s: StepState, vsi: Cell, ext: ExtendedSubIndex<8>, iz: IsZeroGadget,
    word: WordU16, iz_max: IsZeroGadget) -> Seq<Constraint> {
    vec_push_back_stage1_head(s, vsi)
    + polys_at(ext_sub_index_polys(8, ext.sub_index, ext.limbs@, ext.mask@, ext.reverse_limb), RowScope::NotLast, None)
    + seq![at(RowScope::NotLast, "local_sub_index(0) == local_sub_index(1).parent()",
        e_sub(e_cell(s.local_sub_index), e_parent_sub_index(ext.limbs@, ext.mask@)))]
    + polys_at(iz.spec_constraints(), RowScope::NotLast, None)
    + seq![at(RowScope::NotLast, "local_sub_index(0) != local_sub_index(1)", iz.is_zero)]
    + vec_push_back_stage1_tail(s, vsi, word, iz_max)
}

/// Program counter, opcode, auxiliaries and stack pointer all stay.
pub open spec fn vec_push_back_stay() -> Seq<(StateField, Transition)> {
    seq![
        (StateField::Pc, Transition::Same),
        (StateField::Opcode, Transition::Same),
        (StateField::Aux0, Transition::Same),
        (StateField::Aux1, Transition::Same),
        (StateField::Sp, Transition::Same),
    ]
}

pub fn vec_push_back_stay_vec() -> (r: Vec<(StateField, Transition)>)
    ensures
        r@ == vec_push_back_stay(),
{
    let v = vec![
        (StateField::Pc, Transition::Same),
        (StateField::Opcode, Transition::Same),
        (StateField::Aux0, Transition::Same),
        (StateField::Aux1, Transition::Same),
        (StateField::Sp, Transition::Same),
    ];
    proof {
        assert(v@ =~= vec_push_back_stay());
    }
    v
}

/// The cell at `column`, current row.
pub open spec fn column_cell(column: nat) -> Cell {
    Cell { column: column as usize, rotation: 0 }
}

impl VecPushBackStage1 {
    #[verifier::rlimit(60)]
    pub fn configure(cb: &mut ConstraintBuilder) -> (r: VecPushBackStage1)
        requires
            old(cb).wf(),
            old(cb).scope == RowScope::All,
            old(cb).condition is None,
            old(cb).has_room(46),
        ensures
            final(cb).wf(),
            final(cb).scope == RowScope::All,
            final(cb).condition is None,
            final(cb).curr == old(cb).curr,
            final(cb).next_column == old(cb).next_column + 46,
            r.vector_sub_index == column_cell(old(cb).next_column as nat),
            r.extended_local_sub_index_of_next_row.sub_index == e_cell(old(cb).curr.spec_at_offset(1).local_sub_index),
            r.extended_local_sub_index_of_next_row.bytes@.len() == 32,
            fresh_cells(r.extended_local_sub_index_of_next_row.bytes@, (old(cb).next_column + 1) as nat),
            r.extended_local_sub_index_of_next_row.limbs@ == limb_exprs(r.extended_local_sub_index_of_next_row.bytes@, 8),
            r.extended_local_sub_index_of_next_row.mask@.len() == 8,
            fresh_cells(r.extended_local_sub_index_of_next_row.mask@, (old(cb).next_column + 33) as nat),
            r.extended_local_sub_index_of_next_row.reverse_limb == column_cell((old(cb).next_column + 41) as nat),
            r.vector_origin_len.lo == column_cell((old(cb).next_column + 42) as nat),
            r.vector_origin_len.hi == column_cell((old(cb).next_column + 43) as nat),
            r.is_zero_gadget.inverse == column_cell((old(cb).next_column + 44) as nat),
            r.is_zero_gadget.value == e_sub_index_step(old(cb).curr),
            r.is_zero_gadget.is_zero == e_is_zero(e_sub_index_step(old(cb).curr), r.is_zero_gadget.inverse),
            r.is_ori_len_max_u16.inverse == column_cell((old(cb).next_column + 45) as nat),
            r.is_ori_len_max_u16.value == e_room_left(r.vector_origin_len),
            r.is_ori_len_max_u16.is_zero == e_is_zero(e_room_left(r.vector_origin_len), r.is_ori_len_max_u16.inverse),
            final(cb).lookups@.len() == old(cb).lookups@.len() + 34,
            final(cb).lookups@.take(old(cb).lookups@.len() as int) == old(cb).lookups@,
            byte_range_records(final(cb).lookups@.subrange(old(cb).lookups@.len() as int, old(cb).lookups@.len() as int + 32),
                r.extended_local_sub_index_of_next_row.bytes@, RowScope::All, None),
            byte_range_records(final(cb).lookups@.skip(old(cb).lookups@.len() as int + 32),
                seq![r.vector_origin_len.lo, r.vector_origin_len.hi], RowScope::All, None),
            final(cb).constraints@ == old(cb).constraints@
                + Seq::new(8, |i: int| at(RowScope::All, "Constrain cell to be a bool",
                    e_boolean(e_cell(r.extended_local_sub_index_of_next_row.mask@[i]))))
                + vec_push_back_stage1_constraints(old(cb).curr, r.vector_sub_index, r.extended_local_sub_index_of_next_row,
                    r.is_zero_gadget, r.vector_origin_len, r.is_ori_len_max_u16),
            final(cb).requirements@.len() == old(cb).requirements@.len() + 8,
            final(cb).requirements@.take(old(cb).requirements@.len() as int) == old(cb).requirements@,
            final(cb).requirements@[old(cb).requirements@.len() as int] == req(RowScope::All, None, Requirement::NoStackPush),
            ({
                let rec = final(cb).requirements@[old(cb).requirements@.len() as int + 1];
                &&& rec.scope == RowScope::Last
                &&& rec.condition is None
                &&& rec.requirement matches Requirement::NextStates(v) && v@ == seq![ExecutionState::VecPushBackStage2]
            }),
            final(cb).requirements@[old(cb).requirements@.len() as int + 2] == req(RowScope::NotFirst, None, Requirement::NoStackPop),
            final(cb).requirements@.skip(old(cb).requirements@.len() as int + 3)
                == transition_records(RowScope::All, None, vec_push_back_stay()),
    {
        let s = cb.curr;
        let n = cb.step_state_at_offset(1);
        let p = cb.step_state_at_offset(-1);
        let ghost l0 = cb.lookups@;
        let ghost c0 = cb.constraints@;
        let ghost q0 = cb.requirements@;
        let vector_sub_index = cb.query_cell();
        let ext = ExtendedSubIndex::<8>::construct_without_configure(cb, n.local_sub_index.expr());
        let ghost l1 = cb.lookups@;
        let ghost c1 = cb.constraints@;
        // The word takes the same columns as in the second stage, which reads
        // it back one row up.
        let vector_origin_len = WordU16::construct(cb);
        let is_zero_gadget = IsZeroGadget::construct(
            cb,
            Expression::sub(s.local_sub_index.expr(), n.local_sub_index.expr()),
        );
        let max_u16 = Expression::sub(Expression::pow_of_two(16), Expression::constant(1));
        let is_ori_len_max_u16 = IsZeroGadget::construct(cb, Expression::sub(max_u16, vector_origin_len.expr()));

        cb.require_no_stack_push();
        let ghost qa = cb.requirements@;
        let prev = cb.scope_begin(RowScope::Last);
        cb.require_next_state(ExecutionState::VecPushBackStage2);
        cb.scope_end(prev);
        let ghost qb = cb.requirements@;

        let prev = cb.scope_begin(RowScope::First);
        let ops = [Opcode::VecPushBack];
        cb.require_in_set("opcode in OPCODES", s.opcode.expr(), opcode_exprs(&ops));
        cb.require_equal(
            "stack_pop_index(0) == sp(0) - 1",
            s.stack_pop_index.expr(),
            Expression::sub(s.sp.expr(), Expression::constant(1)),
        );
        cb.require_zero("stack_pop_sub_index(0) == 0", s.stack_pop_sub_index.expr());
        let index = Index::new(s.local_frame_index.expr(), s.local_index.expr());
        cb.require_equal(
            "(local_frame_index(0), local_index(0)) == stack_pop_value(0).index",
            index.expr(),
            s.stack_pop_value.as_reference().index(),
        );
        cb.require_equal(
            "vector_sub_index(0) == stack_pop_value(0).sub_index",
            vector_sub_index.expr(),
            s.stack_pop_value.as_reference().sub_index(),
        );
        cb.require_zero("local_sub_index(0)==0", s.local_sub_index.expr());
        cb.scope_end(prev);

        let prev = cb.scope_begin(RowScope::NotFirst);
        cb.require_no_stack_pop();
        cb.require_equal(
            "local_frame_index(0) == local_frame_index(-1)",
            s.local_frame_index.expr(),
            p.local_frame_index.expr(),
        );
        cb.require_equal("local_index(0) == local_index(-1)", s.local_index.expr(), p.local_index.expr());
        cb.require_equal(
            "vector_sub_index(0) == vector_sub_index(-1)",
            vector_sub_index.expr(),
            vector_sub_index.at_offset(-1).expr(),
        );
        cb.scope_end(prev);
        let ghost c2 = cb.constraints@;

        let prev = cb.scope_begin(RowScope::NotLast);
        ext.configure(cb);
        cb.require_equal(
            "local_sub_index(0) == local_sub_index(1).parent()",
            s.local_sub_index.expr(),
            ext.get_parent_sub_index(),
        );
        is_zero_gadget.constrain(cb);
        cb.require_zero("local_sub_index(0) != local_sub_index(1)", is_zero_gadget.expr());
        cb.scope_end(prev);
        let ghost c3 = cb.constraints@;

        let prev = cb.scope_begin(RowScope::Last);
        cb.require_equal("local_sub_index(0) == vector_sub_index(0)", s.local_sub_index.expr(), vector_sub_index.expr());
        cb.scope_end(prev);
        cb.require_true("local_read_value_header(0) == true", s.local_read_value_header.expr());
        cb.require_zero("local_read_value_invalid(0)==false", s.local_read_value_invalid.expr());
        cb.require_true("local_write_value_header(0) == true", s.local_write_value_header.expr());
        cb.require_zero("local_write_value_invalid(0)==false", s.local_write_value_invalid.expr());
        cb.require_equal("local_write_version(0) == clk(0)", s.local_write_version.expr(), s.clk.expr());

        let prev = cb.scope_begin(RowScope::NotLast);
        cb.require_equal(
            "local_write_value(0).flen - local_read_value(0).flen == local_write_value(1).flen - local_read_value(1).flen",
            Expression::sub(s.local_write_value.as_header().flen(), s.local_read_value.as_header().flen()),
            Expression::sub(n.local_write_value.as_header().flen(), n.local_read_value.as_header().flen()),
        );
        cb.require_equal(
            "local_read_value(0).as_header().len == local_write_value(0).as_header().len",
            s.local_read_value.as_header().len(),
            s.local_write_value.as_header().len(),
        );
        cb.scope_end(prev);

        let prev = cb.scope_begin(RowScope::Last);
        cb.require_equal(
            "local_read_value(0).as_header().flen + step_counter(1) == local_write_value(0).as_header().flen",
            Expression::add(s.local_read_value.as_header().flen(), n.step_counter.expr()),
            s.local_write_value.as_header().flen(),
        );
        cb.require_equal(
            "local_read_value(0).as_header().len + 1 == local_write_value(0).as_header().len",
            Expression::add(s.local_read_value.as_header().len(), Expression::constant(1)),
            s.local_write_value.as_header().len(),
        );
        cb.require_equal(
            "vector_origin_len(0) == local_read_value(0).as_header().len",
            s.local_read_value.as_header().len(),
            vector_origin_len.expr(),
        );
        let ghost c4 = cb.constraints@;
        is_ori_len_max_u16.constrain(cb);
        let ghost c5 = cb.constraints@;
        cb.require_zero("vector_origin_len(0) != 2^16-1", is_ori_len_max_u16.expr());
        cb.scope_end(prev);

        let ghost q1 = cb.requirements@;
        cb.require_state_transitions(vec_push_back_stay_vec());
        proof {
            let k = l0.len() as int;
            assert(cb.lookups@.take(k) =~= l0) by {
                assert(l1.take(k) =~= l0);
            }
            assert(cb.lookups@.subrange(k, k + 32) =~= l1.skip(k));
            assert(ops@ =~= seq![Opcode::VecPushBack]);
            assert(c1 =~= c0 + Seq::new(8, |i: int| at(RowScope::All, "Constrain cell to be a bool",
                e_boolean(e_cell(ext.mask@[i])))));
            assert(c2 =~= c1 + vec_push_back_stage1_head(s, vector_sub_index));
            assert(c3 =~= c2
                + polys_at(ext_sub_index_polys(8, ext.sub_index, ext.limbs@, ext.mask@, ext.reverse_limb), RowScope::NotLast, None)
                + seq![at(RowScope::NotLast, "local_sub_index(0) == local_sub_index(1).parent()",
                    e_sub(e_cell(s.local_sub_index), e_parent_sub_index(ext.limbs@, ext.mask@)))]
                + polys_at(is_zero_gadget.spec_constraints(), RowScope::NotLast, None)
                + seq![at(RowScope::NotLast, "local_sub_index(0) != local_sub_index(1)", is_zero_gadget.is_zero)]);
            assert(c5 =~= c4 + polys_at(is_ori_len_max_u16.spec_constraints(), RowScope::Last, None));
            assert(cb.constraints@ =~= c3 + vec_push_back_stage1_tail(s, vector_sub_index, vector_origin_len,
                is_ori_len_max_u16));
            assert(qa =~= q0.push(req(RowScope::All, None, Requirement::NoStackPush)));
            assert(qb.drop_last() == qa);
            assert(q1.drop_last() =~= qb);
            assert(q1.len() == q0.len() + 3);
            assert(q1.take(q0.len() as int) =~= q0) by {
                let k = q0.len() as int;
                assert forall|i: int| 0 <= i < k implies #[trigger] q1[i] == q0[i] by {
                    assert(q1[i] == q1.drop_last()[i]);
                    assert(qb[i] == qb.drop_last()[i]);
                    assert(qa[i] == q0[i]);
                }
            }
            assert(cb.requirements@.take(q0.len() as int) =~= q0) by {
                assert(cb.requirements@.take(q1.len() as int) =~= q1);
                assert(cb.requirements@.take(q0.len() as int) =~= q1.take(q0.len() as int));
            }
            assert(cb.requirements@[q0.len() as int] == qa[q0.len() as int]) by {
                assert(cb.requirements@[q0.len() as int] == q1[q0.len() as int]);
                assert(q1[q0.len() as int] == qb[q0.len() as int]);
            }
            assert(cb.requirements@[q0.len() as int + 1] == qb[q0.len() as int + 1]) by {
                assert(cb.requirements@[q0.len() as int + 1] == q1[q0.len() as int + 1]);
            }
            assert(cb.requirements@[q0.len() as int + 2] == q1[q0.len() as int + 2]);
            assert(cb.requirements@.skip(q0.len() as int + 3) =~= transition_records(RowScope::All, None, vec_push_back_stay()));
        }
        VecPushBackStage1 {
            vector_sub_index,
            extended_local_sub_index_of_next_row: ext,
            vector_origin_len,
            is_ori_len_max_u16,
            is_zero_gadget,
        }
    }
}


/// The witness of one row of the first stage of `VecPushBack`.
#[derive(Debug)]
pub struct VecPushBackStage1Row {
    pub vector_sub_index: Fe,
    pub extended_local_sub_index_of_next_row: ExtendedSubIndexWitness,
    /// The bytes of the vector's length before the push, low byte first.
    pub vector_origin_len: (u8, u8),
    pub is_ori_len_max_u16: (Fe, Fe),
    pub is_zero_gadget: (Fe, Fe),
}

/// `a - b` in the field, for residues `a` and `b`.
pub open spec fn fe_diff(a: nat, b: nat) -> nat {
    (a + modulus() - b) as nat % modulus()
}

impl VecPushBackStage1 {
    /// The witness of the stage: one row per local on the walk, whose sub
    /// indexes are `local_sub_indexes` from the root down to the vector. Each
    /// row but the last holds the next row's sub index and its difference to
    /// this row's; the last one holds the vector's length before the push,
    /// `vector_origin_len`, and its distance to `2^16 - 1`.
    pub fn assign(&self, vector_sub_index: &Fe, local_sub_indexes: &Vec<Fe>, vector_origin_len: u16)
        -> (r: Vec<VecPushBackStage1Row>)
        requires
            local_sub_indexes@.len() >= 1,
        ensures
            r@.len() == local_sub_indexes@.len(),
            forall|i: int| 0 <= i < r@.len() ==> {
                let row = #[trigger] r@[i];
                let last = i == r@.len() - 1;
                &&& row.vector_sub_index == *vector_sub_index
                &&& last ==> ext_sub_index_witness(0, row.extended_local_sub_index_of_next_row)
                &&& last ==> row.vector_origin_len.0 + 256 * row.vector_origin_len.1 == vector_origin_len
                &&& last ==> zero_test((65535 - vector_origin_len) as nat, row.is_ori_len_max_u16)
                &&& last ==> zero_test(0, row.is_zero_gadget)
                &&& !last ==> ext_sub_index_witness(local_sub_indexes@[i + 1].val(),
                    row.extended_local_sub_index_of_next_row)
                &&& !last ==> row.vector_origin_len == (0u8, 0u8)
                &&& !last ==> zero_test(0, row.is_ori_len_max_u16)
                &&& !last ==> zero_test(fe_diff(local_sub_indexes@[i].val(), local_sub_indexes@[i + 1].val()),
                    row.is_zero_gadget)
            },
    {
        let rows = local_sub_indexes.len();
        let mut r: Vec<VecPushBackStage1Row> = Vec::new();
        let mut i: usize = 0;
        while i < rows
            invariant
                rows == local_sub_indexes@.len(),
                rows >= 1,
                i <= rows,
                r@.len() == i,
                forall|k: int| 0 <= k < i ==> {
                    let row = #[trigger] r@[k];
                    let last = k == rows - 1;
                    &&& row.vector_sub_index == *vector_sub_index
                    &&& last ==> ext_sub_index_witness(0, row.extended_local_sub_index_of_next_row)
                    &&& last ==> row.vector_origin_len.0 + 256 * row.vector_origin_len.1 == vector_origin_len
                    &&& last ==> zero_test((65535 - vector_origin_len) as nat, row.is_ori_len_max_u16)
                    &&& last ==> zero_test(0, row.is_zero_gadget)
                    &&& !last ==> ext_sub_index_witness(local_sub_indexes@[k + 1].val(),
                        row.extended_local_sub_index_of_next_row)
                    &&& !last ==> row.vector_origin_len == (0u8, 0u8)
                    &&& !last ==> zero_test(0, row.is_ori_len_max_u16)
                    &&& !last ==> zero_test(fe_diff(local_sub_indexes@[k].val(), local_sub_indexes@[k + 1].val()),
                        row.is_zero_gadget)
                },
            decreases rows - i,
        {
            let row = if i == rows - 1 {
                let ext = self.extended_local_sub_index_of_next_row.assign(&Fe::zero());
                let len = WordU16::assign(vector_origin_len);
                let room = Fe::from_u64((65535 - vector_origin_len) as u64);
                let is_ori = self.is_ori_len_max_u16.assign(&room);
                let is_zero = self.is_zero_gadget.assign(&Fe::zero());
                VecPushBackStage1Row {
                    vector_sub_index: *vector_sub_index,
                    extended_local_sub_index_of_next_row: ext,
                    vector_origin_len: len,
                    is_ori_len_max_u16: is_ori,
                    is_zero_gadget: is_zero,
                }
            } else {
                let ext = self.extended_local_sub_index_of_next_row.assign(&local_sub_indexes[i + 1]);
                let is_ori = self.is_ori_len_max_u16.assign(&Fe::zero());
                let diff = fe_sub(&local_sub_indexes[i], &local_sub_indexes[i + 1]);
                let is_zero = self.is_zero_gadget.assign(&diff);
                VecPushBackStage1Row {
                    vector_sub_index: *vector_sub_index,
                    extended_local_sub_index_of_next_row: ext,
                    vector_origin_len: (0u8, 0u8),
                    is_ori_len_max_u16: is_ori,
                    is_zero_gadget: is_zero,
                }
            };
            r.push(row);
            i = i + 1;
        }
        r
    }
}


/// `VecPushBack`, second stage: pops the new element, one flattened limb per
/// row, and writes it below the vector's header at index `vector_origin_len`.
#[derive(Debug)]
pub struct VecPushBackStage2 {
    pub vector_sub_index: Cell,
    pub extended_vector_sub_index: ExtendedSubIndex<8>,
    pub vector_origin_len: WordU16,
}

/// The sub index of the element's limb: the vector's sub index extended by
/// `vector_origin_len + 1`, then by the popped sub index.
pub open spec fn e_element_sub_index(s: StepState, ext: ExtendedSubIndex<8>, word: WordU16) -> Expression {
    e_add(ext.sub_index, e_mul(
        e_add(e_add(e_word_u16(word.lo, word.hi), e_const(1)),
            e_mul(e_cell(s.stack_pop_sub_index), e_const(DEPTH_POW_OF_ONE_LEVEL as u128))),
        e_depth_pow(ext.mask@)))
}

/// The constraints of the second stage after those of the extended sub index.
pub open spec fn vec_push_back_stage2_constraints(s: StepState, vsi: Cell, ext: ExtendedSubIndex<8>, word: WordU16)
    -> Seq<Constraint> {
    let p = s.spec_at_offset(-1);
    let h = e_cell(s.local_write_value_header);
    seq![
        at(RowScope::All, "vector_sub_index(0) == vector_sub_index(-1)", e_sub(e_cell(vsi), e_cell(rotate(vsi, -1)))),
        at(RowScope::All, "vector_origin_len(0) == vector_origin_len(-1)",
            e_sub(e_word_u16(word.lo, word.hi), e_word_u16(rotate(word.lo, -1), rotate(word.hi, -1)))),
        at(RowScope::All, "local_frame_index(0) == local_frame_index(-1)",
            e_sub(e_cell(s.local_frame_index), e_cell(p.local_frame_index))),
        at(RowScope::All, "local_index(0) == local_index(-1)", e_sub(e_cell(s.local_index), e_cell(p.local_index))),
        at(RowScope::All,
            "local_sub_index(0) == extend_vector_sub_index.concat(vector_origin_len(0)+1 + stack_pop_sub_index(0) << 16)",
            e_sub(e_cell(s.local_sub_index), e_element_sub_index(s, ext, word))),
        at(RowScope::First, "step_counter(0) == local_write_value(0).as_header().flen",
            e_mul(h, e_sub(e_cell(s.step_counter), e_cell(s.local_write_value.cells[0])))),
        at(RowScope::First, "step_counter(0)==1",
            e_mul(e_sub(e_const(1), h), e_sub(e_cell(s.step_counter), e_const(1)))),
        at(RowScope::All, "local_read_value_invalid(0) == true", e_sub(e_cell(s.local_read_value_invalid), e_const(1))),
        at(RowScope::All, "local_write_value_invalid(0) == false", e_cell(s.local_write_value_invalid)),
        at(RowScope::All, "local_write_version(0) == clk(0)", e_sub(e_cell(s.local_write_version), e_cell(s.clk))),
        at(RowScope::All, "stack_pop_index(0) == sp(0)", e_sub(e_cell(s.stack_pop_index), e_cell(s.sp))),
        at(RowScope::First, "stack_pop_sub_index(0)==0", e_cell(s.stack_pop_sub_index)),
        at(RowScope::All, "stack_pop_value(0)==local_write_value(0)",
            e_sub(s.stack_pop_value.spec_expr(), s.local_write_value.spec_expr())),
        at(RowScope::All, "stack_pop_value_header(0)==local_write_value_header(0)",
            e_sub(e_cell(s.stack_pop_value_header), h)),
    ]
}

/// The last row moves to the next instruction and frees the reference and the
/// element.
pub open spec fn vec_push_back_exit() -> Seq<(StateField, Transition)> {
    seq![
        (StateField::Pc, Transition::Delta(e_const(1))),
        (StateField::Sp, Transition::Delta(e_neg(e_const(2)))),
    ]
}

impl VecPushBackStage2 {
    #[verifier::rlimit(60)]
    pub fn configure(cb: &mut ConstraintBuilder) -> (r: VecPushBackStage2)
        requires
            old(cb).wf(),
            old(cb).scope == RowScope::All,
            old(cb).condition is None,
            old(cb).has_room(44),
        ensures
            final(cb).wf(),
            final(cb).scope == RowScope::All,
            final(cb).condition is None,
            final(cb).curr == old(cb).curr,
            final(cb).next_column == old(cb).next_column + 44,
            r.vector_sub_index == column_cell(old(cb).next_column as nat),
            r.extended_vector_sub_index.sub_index == e_cell(r.vector_sub_index),
            r.extended_vector_sub_index.bytes@.len() == 32,
            fresh_cells(r.extended_vector_sub_index.bytes@, (old(cb).next_column + 1) as nat),
            r.extended_vector_sub_index.limbs@ == limb_exprs(r.extended_vector_sub_index.bytes@, 8),
            r.extended_vector_sub_index.mask@.len() == 8,
            fresh_cells(r.extended_vector_sub_index.mask@, (old(cb).next_column + 33) as nat),
            r.extended_vector_sub_index.reverse_limb == column_cell((old(cb).next_column + 41) as nat),
            r.vector_origin_len.lo == column_cell((old(cb).next_column + 42) as nat),
            r.vector_origin_len.hi == column_cell((old(cb).next_column + 43) as nat),
            final(cb).lookups@.len() == old(cb).lookups@.len() + 34,
            final(cb).lookups@.take(old(cb).lookups@.len() as int) == old(cb).lookups@,
            byte_range_records(final(cb).lookups@.subrange(old(cb).lookups@.len() as int, old(cb).lookups@.len() as int + 32),
                r.extended_vector_sub_index.bytes@, RowScope::All, None),
            byte_range_records(final(cb).lookups@.skip(old(cb).lookups@.len() as int + 32),
                seq![r.vector_origin_len.lo, r.vector_origin_len.hi], RowScope::All, None),
            final(cb).constraints@ == old(cb).constraints@
                + Seq::new(8, |i: int| at(RowScope::All, "Constrain cell to be a bool",
                    e_boolean(e_cell(r.extended_vector_sub_index.mask@[i]))))
                + polys_at(ext_sub_index_polys(8, r.extended_vector_sub_index.sub_index, r.extended_vector_sub_index.limbs@,
                    r.extended_vector_sub_index.mask@, r.extended_vector_sub_index.reverse_limb), RowScope::All, None)
                + vec_push_back_stage2_constraints(old(cb).curr, r.vector_sub_index, r.extended_vector_sub_index,
                    r.vector_origin_len),
            final(cb).requirements@.len() == old(cb).requirements@.len() + 9,
            final(cb).requirements@.take(old(cb).requirements@.len() as int) == old(cb).requirements@,
            final(cb).requirements@[old(cb).requirements@.len() as int] == req(RowScope::All, None, Requirement::NoStackPush),
            ({
                let rec = final(cb).requirements@[old(cb).requirements@.len() as int + 1];
                &&& rec.scope == RowScope::First
                &&& rec.condition is None
                &&& rec.requirement matches Requirement::PrevStates(v) && v@ == seq![ExecutionState::VecPushBackStage1]
            }),
            final(cb).requirements@.skip(old(cb).requirements@.len() as int + 2)
                == transition_records(RowScope::NotLast, None, vec_push_back_stay())
                + transition_records(RowScope::Last, None, vec_push_back_exit()),
    {
        let s = cb.curr;
        let p = cb.step_state_at_offset(-1);
        let ghost l0 = cb.lookups@;
        let ghost q0 = cb.requirements@;
        let vector_sub_index = cb.query_cell();
        let ext = ExtendedSubIndex::<8>::construct(cb, vector_sub_index.expr());
        let ghost l1 = cb.lookups@;
        let ghost c1 = cb.constraints@;
        let vector_origin_len = WordU16::construct(cb);

        cb.require_no_stack_push();
        let ghost qa = cb.requirements@;
        let prev = cb.scope_begin(RowScope::First);
        cb.require_prev_state(ExecutionState::VecPushBackStage1);
        cb.scope_end(prev);
        let ghost qb = cb.requirements@;

        cb.require_equal(
            "vector_sub_index(0) == vector_sub_index(-1)",
            vector_sub_index.expr(),
            vector_sub_index.at_offset(-1).expr(),
        );
        let prev_cells = cb.cells_at_offset(&vector_origin_len.cells(), -1);
        let prev_len = WordU16::new(&prev_cells);
        cb.require_equal("vector_origin_len(0) == vector_origin_len(-1)", vector_origin_len.expr(), prev_len.expr());
        cb.require_equal(
            "local_frame_index(0) == local_frame_index(-1)",
            s.local_frame_index.expr(),
            p.local_frame_index.expr(),
        );
        cb.require_equal("local_index(0) == local_index(-1)", s.local_index.expr(), p.local_index.expr());
        cb.require_equal(
            "local_sub_index(0) == extend_vector_sub_index.concat(vector_origin_len(0)+1 + stack_pop_sub_index(0) << 16)",
            s.local_sub_index.expr(),
            ext.concat(Expression::add(
                Expression::add(vector_origin_len.expr(), Expression::constant(1)),
                Expression::mul(s.stack_pop_sub_index.expr(), Expression::constant(DEPTH_POW_OF_ONE_LEVEL as u128)),
            )),
        );
        let prev = cb.scope_begin(RowScope::First);
        let c = cb.condition_begin(s.local_write_value_header.expr());
        cb.require_equal(
            "step_counter(0) == local_write_value(0).as_header().flen",
            s.step_counter.expr(),
            s.local_write_value.as_header().flen(),
        );
        cb.condition_end(c);
        let c = cb.condition_begin(Expression::sub(Expression::constant(1), s.local_write_value_header.expr()));
        cb.require_equal("step_counter(0)==1", s.step_counter.expr(), Expression::constant(1));
        cb.condition_end(c);
        cb.scope_end(prev);
        cb.require_true("local_read_value_invalid(0) == true", s.local_read_value_invalid.expr());
        cb.require_zero("local_write_value_invalid(0) == false", s.local_write_value_invalid.expr());
        cb.require_equal("local_write_version(0) == clk(0)", s.local_write_version.expr(), s.clk.expr());
        cb.require_equal("stack_pop_index(0) == sp(0)", s.stack_pop_index.expr(), s.sp.expr());
        let prev = cb.scope_begin(RowScope::First);
        cb.require_zero("stack_pop_sub_index(0)==0", s.stack_pop_sub_index.expr());
        cb.scope_end(prev);
        cb.require_equal("stack_pop_value(0)==local_write_value(0)", s.stack_pop_value.expr(), s.local_write_value.expr());
        cb.require_equal(
            "stack_pop_value_header(0)==local_write_value_header(0)",
            s.stack_pop_value_header.expr(),
            s.local_write_value_header.expr(),
        );

        let prev = cb.scope_begin(RowScope::NotLast);
        cb.require_state_transitions(vec_push_back_stay_vec());
        cb.scope_end(prev);
        let ghost q1 = cb.requirements@;
        let prev = cb.scope_begin(RowScope::Last);
        let exit = vec![
            (StateField::Pc, Transition::Delta(Expression::constant(1))),
            (StateField::Sp, Transition::Delta(Expression::neg(Expression::constant(2)))),
        ];
        proof {
            assert(exit@ =~= vec_push_back_exit());
        }
        cb.require_state_transitions(exit);
        cb.scope_end(prev);
        proof {
            let k = l0.len() as int;
            assert(cb.lookups@.take(k) =~= l0) by {
                assert(l1.take(k) =~= l0);
            }
            assert(cb.lookups@.subrange(k, k + 32) =~= l1.skip(k));
            assert(prev_cells@ =~= seq![rotate(vector_origin_len.lo, -1), rotate(vector_origin_len.hi, -1)]);
            assert(cb.constraints@ =~= c1 + vec_push_back_stage2_constraints(s, vector_sub_index, ext, vector_origin_len));
            assert(qa =~= q0.push(req(RowScope::All, None, Requirement::NoStackPush)));
            assert(qb.drop_last() == qa);
            let m = q0.len() as int;
            assert forall|i: int| 0 <= i < m + 2 implies #[trigger] cb.requirements@[i] == qb[i] by {
                assert(cb.requirements@[i] == q1[i]);
            }
            assert(cb.requirements@.take(m) =~= q0) by {
                assert forall|i: int| 0 <= i < m implies #[trigger] cb.requirements@[i] == q0[i] by {
                    assert(cb.requirements@[i] == qb[i]);
                    assert(qb[i] == qb.drop_last()[i]);
                }
            }
            assert(cb.requirements@[m] == qa[m]) by {
                assert(qb[m] == qb.drop_last()[m]);
            }
            assert(cb.requirements@.skip(m + 2) =~= transition_records(RowScope::NotLast, None, vec_push_back_stay())
                + transition_records(RowScope::Last, None, vec_push_back_exit()));
        }
        VecPushBackStage2 { vector_sub_index, extended_vector_sub_index: ext, vector_origin_len }
    }

    /// The witness of each of the `rows` rows: the vector's sub index and the
    /// bytes of its length before the push, both as the row above holds them.
    pub fn assign(&self, vector_sub_index: &Fe, vector_origin_len: (u8, u8), rows: usize)
        -> (r: Vec<(Fe, ExtendedSubIndexWitness, (u8, u8))>)
        ensures
            r@.len() == rows,
            forall|i: int| 0 <= i < rows ==> {
                let row = #[trigger] r@[i];
                &&& row.0 == *vector_sub_index
                &&& ext_sub_index_witness(vector_sub_index.val(), row.1)
                &&& row.2 == vector_origin_len
            },
    {
        let mut r: Vec<(Fe, ExtendedSubIndexWitness, (u8, u8))> = Vec::new();
        let mut i: usize = 0;
        while i < rows
            invariant
                i <= rows,
                r@.len() == i,
                forall|k: int| 0 <= k < i ==> {
                    let row = #[trigger] r@[k];
                    &&& row.0 == *vector_sub_index
                    &&& ext_sub_index_witness(vector_sub_index.val(), row.1)
                    &&& row.2 == vector_origin_len
                },
            decreases rows - i,
        {
            let ext = self.extended_vector_sub_index.assign(vector_sub_index);
            r.push((*vector_sub_index, ext, vector_origin_len));
            i = i + 1;
        }
        r
    }
}


/// On a last row of the first stage whose word holds two bytes and where the
/// zero test of `2^16 - 1 - vector_origin_len`, its requirement to be
/// nonzero, and the two length equations hold, the vector's new length is
/// its old one plus one, and at most `2^16 - 1`: a push never overflows the
/// 16-bit length.
pub proof fn lemma_vec_push_back_len_fits(s: StepState, word: WordU16, iz: IsZeroGadget, w: Witness, row: int)
    requires
        iz.value == e_room_left(word),
        iz.is_zero == e_is_zero(iz.value, iz.inverse),
        0 <= eval(e_cell(word.lo), w, row) < 256,
        0 <= eval(e_cell(word.hi), w, row) < 256,
        eval(e_mul(iz.value, iz.is_zero), w, row) % (modulus() as int) == 0,
        eval(e_mul(e_cell(iz.inverse), iz.is_zero), w, row) % (modulus() as int) == 0,
        eval(iz.is_zero, w, row) % (modulus() as int) == 0,
        eval(e_sub(e_cell(s.local_read_value.cells[1]), e_word_u16(word.lo, word.hi)), w, row) % (modulus() as int) == 0,
        eval(e_sub(e_add(e_cell(s.local_read_value.cells[1]), e_const(1)), e_cell(s.local_write_value.cells[1])), w, row)
            % (modulus() as int) == 0,
    ensures
        eval(e_cell(s.local_write_value.cells[1]), w, row) % (modulus() as int)
            == eval(e_word_u16(word.lo, word.hi), w, row) + 1,
        eval(e_word_u16(word.lo, word.hi), w, row) + 1 <= 65535,
{
    let p = modulus() as int;
    lemma_modulus_bounds();
    lemma2_to64();
    vstd::arithmetic::power2::lemma_pow2_strictly_increases(16, 254);
    lemma_is_zero_sound(iz, w, row);
    reveal_with_fuel(eval, 4);
    let lo = eval(e_cell(word.lo), w, row);
    let hi = eval(e_cell(word.hi), w, row);
    let len = eval(e_word_u16(word.lo, word.hi), w, row);
    assert(len == lo + hi * 256);
    let room = eval(iz.value, w, row);
    assert(room == 65535 - len);
    if room == 0 {
        assert(0int % p == 0);
    }
    assert(len <= 65534);
    let r = eval(e_cell(s.local_read_value.cells[1]), w, row);
    let nw = eval(e_cell(s.local_write_value.cells[1]), w, row);
    assert((r - len) % p == 0);
    assert((r + 1 - nw) % p == 0);
    vstd::arithmetic::div_mod::lemma_fundamental_div_mod(r - len, p);
    vstd::arithmetic::div_mod::lemma_fundamental_div_mod(r + 1 - nw, p);
    let a = (r - len) / p;
    let b = (r + 1 - nw) / p;
    assert(nw == (len + 1) + (a - b) * p) by (nonlinear_arith)
        requires
            r - len == p * a,
            r + 1 - nw == p * b;
    vstd::arithmetic::div_mod::lemma_mod_multiples_vanish(a - b, len + 1, p);
    vstd::arithmetic::div_mod::lemma_small_mod((len + 1) as nat, p as nat);
}

} // verus!
