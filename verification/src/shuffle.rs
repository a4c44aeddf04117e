use vstd::prelude::*;
use crate::call_stack::CallContext;
use crate::expr::{Expression, e_const, e_mul};
use crate::lookup_table::scale_exprs;

verus! {

impl CallContext<Expression> {
    /// The five expressions, in the order of the call stack's columns.
    pub open spec fn spec_exprs(self) -> Seq<Expression> {
        seq![self.index, self.caller_module_index, self.caller_function_index, self.caller_pc, self.version]
    }

    pub fn exprs(&self) -> (r: Vec<Expression>)
        ensures
            r@ == self.spec_exprs(),
    {
        let r = vec![self.index.copy(), self.caller_module_index.copy(), self.caller_function_index.copy(),
            self.caller_pc.copy(), self.version.copy()];
        proof {
            assert(r@ =~= self.spec_exprs());
        }
        r
    }
}

impl Default for CallContext<Expression> {
    /// The empty context: every expression zero.
    fn default() -> (r: Self)
        ensures
            r.spec_exprs() == seq![e_const(0), e_const(0), e_const(0), e_const(0), e_const(0)],
    {
        CallContext {
            index: Expression::constant(0),
            caller_module_index: Expression::constant(0),
            caller_function_index: Expression::constant(0),
            caller_pc: Expression::constant(0),
            version: Expression::constant(0),
        }
    }
}

/// A context pushed onto the call stack.
#[derive(Debug)]
pub struct CallStackPush(pub CallContext<Expression>);

/// A context popped from the call stack.
#[derive(Debug)]
pub struct CallStackPop(pub CallContext<Expression>);

/// A shuffle argument: the rows of one side are a permutation of the rows of
/// the other.
#[derive(Debug)]
pub enum Shuffle {
    /// The pushes of the call stack against its pops.
    CallStack(CallStackPush, CallStackPop),
    /// Conditional shuffle enabled by the first element.
    Conditional(Expression, Box<Shuffle>),
}

/// The expressions of the input side, scaled by every condition.
pub open spec fn spec_shuffle_inputs(s: Shuffle) -> Seq<Expression>
    decreases s,
{
    match s {
        Shuffle::CallStack(input, _) => input.0.spec_exprs(),
        Shuffle::Conditional(c, inner) => spec_shuffle_inputs(*inner).map_values(|e: Expression| e_mul(c, e)),
    }
}

/// The expressions of the shuffled side, scaled by every condition.
pub open spec fn spec_shuffled(s: Shuffle) -> Seq<Expression>
    decreases s,
{
    match s {
        Shuffle::CallStack(_, shuffled) => shuffled.0.spec_exprs(),
        Shuffle::Conditional(c, inner) => spec_shuffled(*inner).map_values(|e: Expression| e_mul(c, e)),
    }
}

impl Shuffle {
    /// The same shuffle, enabled by `condition`.
    pub fn conditional(self, condition: Expression) -> (r: Shuffle)
        ensures
            r == Shuffle::Conditional(condition, Box::new(self)),
    {
        Shuffle::Conditional(condition, Box::new(self))
    }

    pub fn input_exprs(&self) -> (r: Vec<Expression>)
        ensures
            r@ == spec_shuffle_inputs(*self),
        decreases self,
    {
        match self {
            Shuffle::CallStack(input, _) => input.0.exprs(),
            Shuffle::Conditional(condition, shuffle) => {
                let v = (**shuffle).input_exprs();
                scale_exprs(condition, v)
            },
        }
    }

    pub fn shuffled_exprs(&self) -> (r: Vec<Expression>)
        ensures
            r@ == spec_shuffled(*self),
        decreases self,
    {
        match self {
            Shuffle::CallStack(_, shuffled) => shuffled.0.exprs(),
            Shuffle::Conditional(condition, shuffle) => {
                let v = (**shuffle).shuffled_exprs();
                scale_exprs(condition, v)
            },
        }
    }
}

} // verus!
