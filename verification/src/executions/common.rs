use vstd::prelude::*;
use crate::builder::Transition;
use crate::expr::{Expression, e_const, e_neg};
use crate::opcode::Opcode;
use crate::step::StateField;

verus! {

/// The constant expressions of the numbers of `ops`, the set that
/// `require_in_set("opcode in OPCODES", ..)` checks against.
pub open spec fn e_opcodes(ops: Seq<Opcode>) -> Seq<Expression> {
    ops.map_values(|o: Opcode| e_const(o.spec_index() as u128))
}

pub fn opcode_exprs(ops: &[Opcode]) -> (r: Vec<Expression>)
    ensures
        r@ == e_opcodes(ops@),
{
    let mut r: Vec<Expression> = Vec::new();
    let mut i: usize = 0;
    while i < ops.len()
        invariant
            i <= ops.len(),
            r@ == e_opcodes(ops@.take(i as int)),
        decreases ops.len() - i,
    {
        r.push(Expression::constant(ops[i].index() as u128));
        proof {
            assert(ops@.take(i as int + 1) =~= ops@.take(i as int).push(ops@[i as int]));
            assert(e_opcodes(ops@.take(i as int + 1)) =~= e_opcodes(ops@.take(i as int)).push(e_const(ops@[i as int].spec_index() as u128)));
        }
        i = i + 1;
    }
    proof {
        assert(ops@.take(ops.len() as int) =~= ops@);
    }
    r
}

/// The transition out of a stage that pushes one value: same frame, module and
/// function, one stack slot more, next instruction.
pub open spec fn push_exit() -> Seq<(StateField, Transition)> {
    seq![
        (StateField::FrameIndex, Transition::Same),
        (StateField::ModuleIndex, Transition::Same),
        (StateField::FunctionIndex, Transition::Same),
        (StateField::Sp, Transition::Delta(e_const(1))),
        (StateField::Pc, Transition::Delta(e_const(1))),
    ]
}

pub fn push_exit_vec() -> (r: Vec<(StateField, Transition)>)
    ensures
        r@ == push_exit(),
{
    let v = vec![
        (StateField::FrameIndex, Transition::Same),
        (StateField::ModuleIndex, Transition::Same),
        (StateField::FunctionIndex, Transition::Same),
        (StateField::Sp, Transition::Delta(Expression::constant(1))),
        (StateField::Pc, Transition::Delta(Expression::constant(1))),
    ];
    proof {
        assert(v@ =~= push_exit());
    }
    v
}

/// The step fields that a multi-stage instruction carries over unchanged.
pub open spec fn same_location() -> Seq<(StateField, Transition)> {
    seq![
        (StateField::FrameIndex, Transition::Same),
        (StateField::ModuleIndex, Transition::Same),
        (StateField::FunctionIndex, Transition::Same),
        (StateField::Pc, Transition::Same),
        (StateField::Opcode, Transition::Same),
        (StateField::Aux0, Transition::Same),
        (StateField::Aux1, Transition::Same),
    ]
}

pub fn same_location_vec() -> (r: Vec<(StateField, Transition)>)
    ensures
        r@ == same_location(),
{
    let v = vec![
        (StateField::FrameIndex, Transition::Same),
        (StateField::ModuleIndex, Transition::Same),
        (StateField::FunctionIndex, Transition::Same),
        (StateField::Pc, Transition::Same),
        (StateField::Opcode, Transition::Same),
        (StateField::Aux0, Transition::Same),
        (StateField::Aux1, Transition::Same),
    ];
    proof {
        assert(v@ =~= same_location());
    }
    v
}

/// `e - 1` expressed as `Delta(-1)`.
pub open spec fn minus_one() -> Expression {
    e_neg(e_const(1))
}

/// Frame, module and function stay.
pub open spec fn same_function() -> Seq<(StateField, Transition)> {
    seq![
        (StateField::FrameIndex, Transition::Same),
        (StateField::ModuleIndex, Transition::Same),
        (StateField::FunctionIndex, Transition::Same),
    ]
}

pub fn same_function_vec() -> (r: Vec<(StateField, Transition)>)
    ensures
        r@ == same_function(),
{
    let v = vec![
        (StateField::FrameIndex, Transition::Same),
        (StateField::ModuleIndex, Transition::Same),
        (StateField::FunctionIndex, Transition::Same),
    ];
    proof {
        assert(v@ =~= same_function());
    }
    v
}

} // verus!
