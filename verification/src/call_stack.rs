use vstd::prelude::*;
use crate::builder::ConstraintBuilder;
use crate::expr::{Cell, Expression, e_cell, e_sub};

verus! {

/// What a call records of its caller: the frame, the module, the function,
/// the pc and the version.
#[derive(Debug)]
pub struct CallContext<T> {
    pub index: T,
    pub caller_module_index: T,
    pub caller_function_index: T,
    pub caller_pc: T,
    pub version: T,
}

impl CallContext<Cell> {
    pub open spec fn cells(self) -> Seq<Cell> {
        seq![self.index, self.caller_module_index, self.caller_function_index, self.caller_pc, self.version]
    }

    /// Five fresh cells.
    pub fn construct(cb: &mut ConstraintBuilder) -> (r: CallContext<Cell>)
        requires
            old(cb).has_room(5),
        ensures
            r.cells() == Seq::new(5, |i: int| Cell { column: (old(cb).next_column + i) as usize, rotation: 0 }),
            final(cb).next_column == old(cb).next_column + 5,
            final(cb).constraints == old(cb).constraints,
            final(cb).lookups == old(cb).lookups,
            final(cb).requirements == old(cb).requirements,
            final(cb).curr == old(cb).curr,
            final(cb).scope == old(cb).scope,
            final(cb).condition == old(cb).condition,
    {
        let index = cb.query_cell();
        let caller_module_index = cb.query_cell();
        let caller_function_index = cb.query_cell();
        let caller_pc = cb.query_cell();
        let version = cb.query_cell();
        let r = CallContext { index, caller_module_index, caller_function_index, caller_pc, version };
        proof {
            assert(r.cells() =~= Seq::new(5, |i: int| Cell { column: (old(cb).next_column + i) as usize, rotation: 0 }));
        }
        r
    }

    /// Requires the five cells to equal the five expressions.
    pub fn configure(&self, cb: &mut ConstraintBuilder, index: Expression, caller_module_index: Expression,
        caller_function_index: Expression, caller_pc: Expression, version: Expression)
        ensures
            final(cb).constraints@ == old(cb).constraints@ + seq![
                old(cb).spec_constraint("call_context.index == index", e_sub(e_cell(self.index), index)),
                old(cb).spec_constraint("call_context.caller_module_index == caller_module_index",
                    e_sub(e_cell(self.caller_module_index), caller_module_index)),
                old(cb).spec_constraint("call_context.caller_function_index == caller_function_index",
                    e_sub(e_cell(self.caller_function_index), caller_function_index)),
                old(cb).spec_constraint("call_context.caller_pc == caller_pc", e_sub(e_cell(self.caller_pc), caller_pc)),
                old(cb).spec_constraint("call_context.version == version", e_sub(e_cell(self.version), version)),
            ],
            final(cb).only_constraints_changed(*old(cb)),
    {
        cb.require_equal("call_context.index == index", self.index.expr(), index);
        cb.require_equal("call_context.caller_module_index == caller_module_index", self.caller_module_index.expr(),
            caller_module_index);
        cb.require_equal("call_context.caller_function_index == caller_function_index",
            self.caller_function_index.expr(), caller_function_index);
        cb.require_equal("call_context.caller_pc == caller_pc", self.caller_pc.expr(), caller_pc);
        cb.require_equal("call_context.version == version", self.version.expr(), version);
        proof {
            assert(cb.constraints@ =~= old(cb).constraints@ + seq![
                old(cb).spec_constraint("call_context.index == index", e_sub(e_cell(self.index), index)),
                old(cb).spec_constraint("call_context.caller_module_index == caller_module_index",
                    e_sub(e_cell(self.caller_module_index), caller_module_index)),
                old(cb).spec_constraint("call_context.caller_function_index == caller_function_index",
                    e_sub(e_cell(self.caller_function_index), caller_function_index)),
                old(cb).spec_constraint("call_context.caller_pc == caller_pc", e_sub(e_cell(self.caller_pc), caller_pc)),
                old(cb).spec_constraint("call_context.version == version", e_sub(e_cell(self.version), version)),
            ]);
        }
    }

    /// Requires the five cells to be zero.
    pub fn require_zero(&self, cb: &mut ConstraintBuilder)
        ensures
            final(cb).constraints@ == old(cb).constraints@ + seq![
                old(cb).spec_constraint("index == 0", e_cell(self.index)),
                old(cb).spec_constraint("caller_module_index == 0", e_cell(self.caller_module_index)),
                old(cb).spec_constraint("caller_function_index == 0", e_cell(self.caller_function_index)),
                old(cb).spec_constraint("caller_pc == 0", e_cell(self.caller_pc)),
                old(cb).spec_constraint("version == 0", e_cell(self.version)),
            ],
            final(cb).only_constraints_changed(*old(cb)),
    {
        cb.require_zero("index == 0", self.index.expr());
        cb.require_zero("caller_module_index == 0", self.caller_module_index.expr());
        cb.require_zero("caller_function_index == 0", self.caller_function_index.expr());
        cb.require_zero("caller_pc == 0", self.caller_pc.expr());
        cb.require_zero("version == 0", self.version.expr());
        proof {
            assert(cb.constraints@ =~= old(cb).constraints@ + seq![
                old(cb).spec_constraint("index == 0", e_cell(self.index)),
                old(cb).spec_constraint("caller_module_index == 0", e_cell(self.caller_module_index)),
                old(cb).spec_constraint("caller_function_index == 0", e_cell(self.caller_function_index)),
                old(cb).spec_constraint("caller_pc == 0", e_cell(self.caller_pc)),
                old(cb).spec_constraint("version == 0", e_cell(self.version)),
            ]);
        }
    }

    /// The expressions of the five cells.
    pub fn exprs(&self) -> (r: Vec<Expression>)
        ensures
            r@ == self.cells().map_values(|c: Cell| e_cell(c)),
    {
        let r = vec![self.index.expr(), self.caller_module_index.expr(), self.caller_function_index.expr(),
            self.caller_pc.expr(), self.version.expr()];
        proof {
            assert(r@ =~= self.cells().map_values(|c: Cell| e_cell(c)));
        }
        r
    }
}

} // verus!
