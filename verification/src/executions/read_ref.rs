use vstd::prelude::*;
use crate::builder::{Constraint, ConstraintBuilder, RowScope, Requirement, Transition, at, byte_range_records,
    e_boolean, fresh_cells, lemma_boolean_cell, req, transition_records};
use crate::expr::{Cell, Expression, Witness, e_add, e_cell, e_const, e_mul, e_sub, eval};
use crate::field::{field_is_prime, field_witness, lemma_modulus_bounds, modulus};
use crate::bytes::le_value;
use vstd::arithmetic::div_mod::{lemma_add_mod_noop, lemma_fundamental_div_mod, lemma_mod_multiples_vanish, lemma_mod_twice};
use vstd::arithmetic::power2::pow2;
use crate::opcode::Opcode;
use crate::step::{Index, StateField, StepState, rotate};
use crate::sub_index::{ExtendedSubIndex, depth_of, e_depth_pow, ext_sub_index_polys, lemma_concat, lemma_depth_of_bound, lemma_ext_sub_index_sound,
    levels_nonzero, limb_exprs, polys_at};

verus! {

/// `ReadRef`: pops a reference and pushes a copy of the referenced value, one
/// flattened limb per row. `header_sub_index` keeps the sub index of the
/// referenced value's header over the rows.
#[derive(Debug)]
pub struct ReadRef {
    pub header_sub_index: Cell,
    pub header_sub_index_ext: ExtendedSubIndex<8>,
}

pub open spec fn read_ref_constraints(s: StepState, header_sub_index: Cell, ext: ExtendedSubIndex<8>) -> Seq<Constraint> {
    let n = s.spec_at_offset(1);
    seq![
        at(RowScope::First, "opcode", e_sub(e_cell(s.opcode), e_const(Opcode::ReadRef.spec_index() as u128))),
        at(RowScope::First, "stack_pop_index(0) == sp(0)", e_sub(e_cell(s.stack_pop_index), e_cell(s.sp))),
        at(RowScope::First, "stack_pop_sub_index(0) == 0", e_cell(s.stack_pop_sub_index)),
        at(RowScope::First, "(local_frame_index(0), local_index(0)) == stack_pop_value(0).index",
            e_sub(Index { frame_index: e_cell(s.local_frame_index), local_index: e_cell(s.local_index) }.spec_expr(),
                e_cell(s.stack_pop_value.cells[0]))),
        at(RowScope::First, "local_sub_index(0) == stack_pop_value(0).sub_index",
            e_sub(e_cell(s.local_sub_index), e_cell(s.stack_pop_value.cells[1]))),
        at(RowScope::First, "(1 - local_read_value_header(0)) * (step_counter(0) - 1) == 0",
            e_mul(e_sub(e_const(1), e_cell(s.local_read_value_header)), e_sub(e_cell(s.step_counter), e_const(1)))),
        at(RowScope::First, "local_read_value_header(0) * (step_counter(0) - local_read_value(0).flen) == 0",
            e_mul(e_cell(s.local_read_value_header), e_sub(e_cell(s.step_counter), e_cell(s.local_read_value.cells[0])))),
        at(RowScope::First, "header_sub_index(0) == local_sub_index(0)",
            e_sub(e_cell(header_sub_index), e_cell(s.local_sub_index))),
        at(RowScope::All, "stack_push_index(0) == sp(0)", e_sub(e_cell(s.stack_push_index), e_cell(s.sp))),
        at(RowScope::All, "local_sub_index(0) == concat(header_sub_index(0), nonzero(stack_push_sub_index(0)))",
            e_sub(e_cell(s.local_sub_index), e_add(ext.sub_index, e_mul(e_cell(s.stack_push_sub_index), e_depth_pow(ext.mask@))))),
        at(RowScope::All, "stack_push_value(0) == local_read_value(0)",
            e_sub(s.stack_push_value.spec_expr(), s.local_read_value.spec_expr())),
        at(RowScope::All, "stack_push_value_header(0) == local_read_value_header(0)",
            e_sub(e_cell(s.stack_push_value_header), e_cell(s.local_read_value_header))),
        at(RowScope::All, "stack_push_version(0) == clk(0)", e_sub(e_cell(s.stack_push_version), e_cell(s.clk))),
        at(RowScope::All, "local_write_value(0) == local_read_value(0)",
            e_sub(s.local_write_value.spec_expr(), s.local_read_value.spec_expr())),
        at(RowScope::All, "local_write_value_invalid(0) == local_read_value_invalid(0)",
            e_sub(e_cell(s.local_write_value_invalid), e_cell(s.local_read_value_invalid))),
        at(RowScope::All, "local_write_value_header(0) == local_read_value_header(0)",
            e_sub(e_cell(s.local_write_value_header), e_cell(s.local_read_value_header))),
        at(RowScope::All, "local_write_version(0) == clk(0)", e_sub(e_cell(s.local_write_version), e_cell(s.clk))),
        at(RowScope::NotLast, "local_frame_index(1) == local_frame_index(0)",
            e_sub(e_cell(n.local_frame_index), e_cell(s.local_frame_index))),
        at(RowScope::NotLast, "local_index(1) == local_index(0)", e_sub(e_cell(n.local_index), e_cell(s.local_index))),
        at(RowScope::NotLast, "header_sub_index(1) == header_sub_index(0)",
            e_sub(e_cell(rotate(header_sub_index, 1)), e_cell(header_sub_index))),
    ]
}

/// Same frame, module and function, and the next instruction.
pub open spec fn read_ref_exit() -> Seq<(StateField, Transition)> {
    seq![
        (StateField::FrameIndex, Transition::Same),
        (StateField::ModuleIndex, Transition::Same),
        (StateField::FunctionIndex, Transition::Same),
        (StateField::Pc, Transition::Delta(e_const(1))),
    ]
}

impl ReadRef {
    #[verifier::rlimit(40)]
    pub fn configure(cb: &mut ConstraintBuilder) -> (r: ReadRef)
        requires
            old(cb).wf(),
            old(cb).scope == RowScope::All,
            old(cb).condition is None,
            old(cb).has_room(42),
        ensures
            final(cb).wf(),
            final(cb).scope == RowScope::All,
            final(cb).condition is None,
            final(cb).curr == old(cb).curr,
            final(cb).next_column == old(cb).next_column + 42,
            r.header_sub_index == (Cell { column: old(cb).next_column, rotation: 0 }),
            r.header_sub_index_ext.sub_index == e_cell(r.header_sub_index),
            r.header_sub_index_ext.bytes@.len() == 32,
            fresh_cells(r.header_sub_index_ext.bytes@, (old(cb).next_column + 1) as nat),
            r.header_sub_index_ext.limbs@ == limb_exprs(r.header_sub_index_ext.bytes@, 8),
            r.header_sub_index_ext.mask@.len() == 8,
            fresh_cells(r.header_sub_index_ext.mask@, (old(cb).next_column + 33) as nat),
            r.header_sub_index_ext.reverse_limb == (Cell { column: (old(cb).next_column + 41) as usize, rotation: 0 }),
            final(cb).lookups@.len() == old(cb).lookups@.len() + 32,
            final(cb).lookups@.take(old(cb).lookups@.len() as int) == old(cb).lookups@,
            byte_range_records(final(cb).lookups@.skip(old(cb).lookups@.len() as int), r.header_sub_index_ext.bytes@,
                RowScope::All, None),
            final(cb).constraints@ == old(cb).constraints@
                + Seq::new(8, |i: int| at(RowScope::All, "Constrain cell to be a bool",
                    e_boolean(e_cell(r.header_sub_index_ext.mask@[i]))))
                + polys_at(ext_sub_index_polys(8, r.header_sub_index_ext.sub_index, r.header_sub_index_ext.limbs@,
                    r.header_sub_index_ext.mask@, r.header_sub_index_ext.reverse_limb), RowScope::All, None)
                + read_ref_constraints(old(cb).curr, r.header_sub_index, r.header_sub_index_ext),
            final(cb).requirements@ == old(cb).requirements@ + seq![
                req(RowScope::NotFirst, None, Requirement::NoStackPop),
                req(RowScope::All, None, Requirement::StateTransition(StateField::Sp, Transition::Same)),
            ] + transition_records(RowScope::Last, None, read_ref_exit()),
    {
        let header_sub_index = cb.query_cell();
        let ghost c0 = cb.constraints@;
        let ext = ExtendedSubIndex::<8>::construct(cb, header_sub_index.expr());
        let ghost c1 = cb.constraints@;
        let s = cb.curr;
        let n = cb.step_state_at_offset(1);

        let prev = cb.scope_begin(RowScope::First);
        cb.require_equal("opcode", s.opcode.expr(), Expression::constant(Opcode::ReadRef.index() as u128));
        cb.require_equal("stack_pop_index(0) == sp(0)", s.stack_pop_index.expr(), s.sp.expr());
        cb.require_zero("stack_pop_sub_index(0) == 0", s.stack_pop_sub_index.expr());
        let index = Index::new(s.local_frame_index.expr(), s.local_index.expr());
        cb.require_equal(
            "(local_frame_index(0), local_index(0)) == stack_pop_value(0).index",
            index.expr(),
            s.stack_pop_value.as_reference().index(),
        );
        cb.require_equal(
            "local_sub_index(0) == stack_pop_value(0).sub_index",
            s.local_sub_index.expr(),
            s.stack_pop_value.as_reference().sub_index(),
        );
        cb.require_zero(
            "(1 - local_read_value_header(0)) * (step_counter(0) - 1) == 0",
            Expression::mul(
                Expression::sub(Expression::constant(1), s.local_read_value_header.expr()),
                Expression::sub(s.step_counter.expr(), Expression::constant(1)),
            ),
        );
        cb.require_zero(
            "local_read_value_header(0) * (step_counter(0) - local_read_value(0).flen) == 0",
            Expression::mul(
                s.local_read_value_header.expr(),
                Expression::sub(s.step_counter.expr(), s.local_read_value.as_header().flen()),
            ),
        );
        cb.require_equal("header_sub_index(0) == local_sub_index(0)", header_sub_index.expr(), s.local_sub_index.expr());
        cb.scope_end(prev);
        let prev = cb.scope_begin(RowScope::NotFirst);
        cb.require_no_stack_pop();
        cb.scope_end(prev);

        cb.require_equal("stack_push_index(0) == sp(0)", s.stack_push_index.expr(), s.sp.expr());
        cb.require_equal(
            "local_sub_index(0) == concat(header_sub_index(0), nonzero(stack_push_sub_index(0)))",
            s.local_sub_index.expr(),
            ext.concat(s.stack_push_sub_index.expr()),
        );
        cb.require_equal("stack_push_value(0) == local_read_value(0)", s.stack_push_value.expr(), s.local_read_value.expr());
        cb.require_equal(
            "stack_push_value_header(0) == local_read_value_header(0)",
            s.stack_push_value_header.expr(),
            s.local_read_value_header.expr(),
        );
        cb.require_equal("stack_push_version(0) == clk(0)", s.stack_push_version.expr(), s.clk.expr());
        cb.require_equal("local_write_value(0) == local_read_value(0)", s.local_write_value.expr(), s.local_read_value.expr());
        cb.require_equal(
            "local_write_value_invalid(0) == local_read_value_invalid(0)",
            s.local_write_value_invalid.expr(),
            s.local_read_value_invalid.expr(),
        );
        cb.require_equal(
            "local_write_value_header(0) == local_read_value_header(0)",
            s.local_write_value_header.expr(),
            s.local_read_value_header.expr(),
        );
        cb.require_equal("local_write_version(0) == clk(0)", s.local_write_version.expr(), s.clk.expr());
        cb.require_state_transition(StateField::Sp, Transition::Same);

        let prev = cb.scope_begin(RowScope::NotLast);
        cb.require_equal("local_frame_index(1) == local_frame_index(0)", n.local_frame_index.expr(), s.local_frame_index.expr());
        cb.require_equal("local_index(1) == local_index(0)", n.local_index.expr(), s.local_index.expr());
        cb.require_equal(
            "header_sub_index(1) == header_sub_index(0)",
            header_sub_index.at_offset(1).expr(),
            header_sub_index.expr(),
        );
        cb.scope_end(prev);
        let prev = cb.scope_begin(RowScope::Last);
        let exit = vec![
            (StateField::FrameIndex, Transition::Same),
            (StateField::ModuleIndex, Transition::Same),
            (StateField::FunctionIndex, Transition::Same),
            (StateField::Pc, Transition::Delta(Expression::constant(1))),
        ];
        proof {
            assert(exit@ =~= read_ref_exit());
        }
        cb.require_state_transitions(exit);
        cb.scope_end(prev);
        proof {
            assert(c1 =~= c0 + Seq::new(8, |i: int| at(RowScope::All, "Constrain cell to be a bool",
                    e_boolean(e_cell(ext.mask@[i]))))
                + polys_at(ext_sub_index_polys(8, ext.sub_index, ext.limbs@, ext.mask@, ext.reverse_limb), RowScope::All, None));
            assert(cb.constraints@ =~= c1 + read_ref_constraints(s, header_sub_index, ext));
            assert(cb.requirements@ =~= old(cb).requirements@ + seq![
                req(RowScope::NotFirst, None, Requirement::NoStackPop),
                req(RowScope::All, None, Requirement::StateTransition(StateField::Sp, Transition::Same)),
            ] + transition_records(RowScope::Last, None, read_ref_exit()));
        }
        ReadRef { header_sub_index, header_sub_index_ext: ext }
    }
}

/// Two values whose difference vanishes in the field are equal in it.
pub proof fn lemma_equal_in_field(a: int, b: int)
    requires
        (a - b) % (modulus() as int) == 0,
    ensures
        a % (modulus() as int) == b % (modulus() as int),
{
    let p = modulus() as int;
    lemma_modulus_bounds();
    lemma_fundamental_div_mod(a - b, p);
    lemma_mod_multiples_vanish((a - b) / p, b, p);
}

/// What a row of `ReadRef` proves: where the constraints of `ReadRef` that
/// hold on every row vanish, together with those of the extended sub index
/// of the header and the boolean constraints of its mask, in a prime field
/// on a row of field elements (the header's cells holding the bytes of a
/// sub index whose levels are nonzero), the row pushes a copy of the value it
/// reads, with the same header flag, leaves the referenced value unchanged,
/// stamps both with the clock, and reads at the sub index of the header
/// with the pushed sub index appended below its last level:
/// `local_sub_index = header + stack_push_sub_index * 2^(16 d)`, `d` the
/// header's depth, all in the field.
pub proof fn lemma_read_ref_row(s: StepState, header_sub_index: Cell, ext: ExtendedSubIndex<8>, bytes: Seq<u8>,
    w: Witness, row: int)
    requires
        ext.bytes@.len() == 32,
        ext.limbs@ == limb_exprs(ext.bytes@, 8),
        ext.mask@.len() == 8,
        bytes.len() == 32,
        levels_nonzero(bytes),
        forall|i: int| 0 <= i < 32 ==> #[trigger] eval(e_cell(ext.bytes@[i]), w, row) == bytes[i],
        field_is_prime(),
        field_witness(w),
        forall|i: int| 0 <= i < 8 ==> #[trigger] eval(e_boolean(e_cell(ext.mask@[i])), w, row) % (modulus() as int) == 0,
        forall|k: int| 0 <= k < ext_sub_index_polys(8, ext.sub_index, ext.limbs@, ext.mask@, ext.reverse_limb).len() ==>
            #[trigger] eval(ext_sub_index_polys(8, ext.sub_index, ext.limbs@, ext.mask@, ext.reverse_limb)[k].1, w, row)
                % (modulus() as int) == 0,
        forall|i: int| 8 <= i < 17 ==> #[trigger] eval(read_ref_constraints(s, header_sub_index, ext)[i].poly, w, row)
            % (modulus() as int) == 0,
    ensures
        ({
            let p = modulus() as int;
            let v = |e: Expression| eval(e, w, row) % p;
            &&& v(s.stack_push_value.spec_expr()) == v(s.local_read_value.spec_expr())
            &&& v(e_cell(s.stack_push_value_header)) == v(e_cell(s.local_read_value_header))
            &&& v(s.local_write_value.spec_expr()) == v(s.local_read_value.spec_expr())
            &&& v(e_cell(s.local_write_value_header)) == v(e_cell(s.local_read_value_header))
            &&& v(e_cell(s.local_write_value_invalid)) == v(e_cell(s.local_read_value_invalid))
            &&& v(e_cell(s.stack_push_version)) == v(e_cell(s.clk))
            &&& v(e_cell(s.local_write_version)) == v(e_cell(s.clk))
            &&& v(e_cell(s.stack_push_index)) == v(e_cell(s.sp))
            &&& v(e_cell(s.local_sub_index)) == (le_value(bytes.take(16)) + eval(e_cell(s.stack_push_sub_index), w, row)
                * pow2(16 * depth_of(bytes, 8))) % p
        }),
{
    let p = modulus() as int;
    lemma_modulus_bounds();
    let cs = read_ref_constraints(s, header_sub_index, ext);
    reveal_with_fuel(eval, 3);
    assert(eval(cs[8].poly, w, row) % p == 0);
    lemma_equal_in_field(eval(e_cell(s.stack_push_index), w, row), eval(e_cell(s.sp), w, row));
    assert(eval(cs[10].poly, w, row) % p == 0);
    lemma_equal_in_field(eval(s.stack_push_value.spec_expr(), w, row), eval(s.local_read_value.spec_expr(), w, row));
    assert(eval(cs[11].poly, w, row) % p == 0);
    lemma_equal_in_field(eval(e_cell(s.stack_push_value_header), w, row), eval(e_cell(s.local_read_value_header), w, row));
    assert(eval(cs[12].poly, w, row) % p == 0);
    lemma_equal_in_field(eval(e_cell(s.stack_push_version), w, row), eval(e_cell(s.clk), w, row));
    assert(eval(cs[13].poly, w, row) % p == 0);
    lemma_equal_in_field(eval(s.local_write_value.spec_expr(), w, row), eval(s.local_read_value.spec_expr(), w, row));
    assert(eval(cs[14].poly, w, row) % p == 0);
    lemma_equal_in_field(eval(e_cell(s.local_write_value_invalid), w, row), eval(e_cell(s.local_read_value_invalid), w, row));
    assert(eval(cs[15].poly, w, row) % p == 0);
    lemma_equal_in_field(eval(e_cell(s.local_write_value_header), w, row), eval(e_cell(s.local_read_value_header), w, row));
    assert(eval(cs[16].poly, w, row) % p == 0);
    lemma_equal_in_field(eval(e_cell(s.local_write_version), w, row), eval(e_cell(s.clk), w, row));
    // the sub index read
    assert forall|i: int| 0 <= i < 8 implies #[trigger] eval(e_cell(ext.mask@[i]), w, row) == 0
        || eval(e_cell(ext.mask@[i]), w, row) == 1 by {
        lemma_boolean_cell(ext.mask@[i], w, row);
    }
    lemma_ext_sub_index_sound(ext, bytes, w, row);
    let d = depth_of(bytes, 8);
    lemma_depth_of_bound(bytes, 8);
    let x = e_cell(s.stack_push_sub_index);
    lemma_concat(ext, x, d, w, row);
    let cat = e_add(ext.sub_index, e_mul(x, e_depth_pow(ext.mask@)));
    assert(eval(cs[9].poly, w, row) % p == 0);
    assert(eval(cs[9].poly, w, row) == eval(e_cell(s.local_sub_index), w, row) - eval(cat, w, row));
    lemma_equal_in_field(eval(e_cell(s.local_sub_index), w, row), eval(cat, w, row));
    let si = eval(ext.sub_index, w, row);
    let t = eval(x, w, row) * pow2(16 * d);
    lemma_add_mod_noop(si, t, p);
    lemma_add_mod_noop(le_value(bytes.take(16)) as int, t, p);
    lemma_mod_twice(le_value(bytes.take(16)) as int, p);
}

} // verus!
