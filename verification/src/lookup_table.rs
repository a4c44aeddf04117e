pub mod bitwise_table;
pub mod bytecode_table;
pub mod constant_table;
pub mod fixed_table;
pub mod function_table;
pub mod pi_table;
pub mod utils;

use vstd::prelude::*;
use crate::expr::{Expression, e_mul};

verus! {

/// Each item represents the lookup table to query
#[derive(Clone, Copy, PartialEq, Eq, Debug)]
pub enum Table {
    /// The range check table for 4-bits
    Nibble,
    /// The range check table for u8
    U8,
    /// The range check table for u10
    U10,
    /// The range check table for u16
    U16,
    /// The rest of the fixed table. See [`FixedTableTag`]
    Fixed,
    /// Lookup for bytecode table
    Bytecode,
    /// Lookup for constant table
    Constant,
    /// Lookup for function
    Function,
    /// Pow of 2
    Pow2,
    /// Bitwise lookup
    Bitwise,
}

/// A lookup into one of the tables.
#[derive(Debug)]
#[allow(inconsistent_fields)]
pub enum Lookup {
    /// Lookup to fixed table, which contains several pre-built tables such as
    /// range tables or bitwise tables.
    Fixed { tag: Expression, values: [Expression; 3] },
    /// Lookup to the function table: the call site's module and handle
    /// locate the callee, whose defining module, index, number of arguments
    /// and entry flag are the looked-up row.
    Function {
        module_index: Expression,
        function_handle_index: Expression,
        def_module_index: Expression,
        function_index: Expression,
        num_arg: Expression,
        entry: Expression,
    },
    Pow2 { value: Expression, pow_lo: Expression, pow_hi: Expression },
    Constant {
        module_index: Expression,
        constant_index: Expression,
        sub_index: Expression,
        value: [Expression; 2],
        header: Expression,
    },
    Bitwise { opcode: Expression, value_1: Expression, value_2: Expression, result: Expression },
    /// A range check of one value into one of the range tables.
    Range { table: Table, value: Expression },
    /// Conditional lookup enabled by the first element.
    Conditional(Expression, Box<Lookup>),
}

/// The table that a lookup reads.
pub open spec fn spec_table(l: Lookup) -> Table
    decreases l,
{
    match l {
        Lookup::Fixed { .. } => Table::Fixed,
        Lookup::Function { .. } => Table::Function,
        Lookup::Bitwise { .. } => Table::Bitwise,
        Lookup::Constant { .. } => Table::Constant,
        Lookup::Pow2 { .. } => Table::Pow2,
        Lookup::Range { table, .. } => table,
        Lookup::Conditional(_, inner) => spec_table(*inner),
    }
}

/// The input expressions of a lookup, in the order of the table's columns; a
/// condition multiplies every input.
pub open spec fn spec_input_exprs(l: Lookup) -> Seq<Expression>
    decreases l,
{
    match l {
        Lookup::Fixed { tag, values } => seq![tag] + values@,
        Lookup::Function { def_module_index, function_index, num_arg, entry, .. } =>
            seq![def_module_index, function_index, num_arg, entry],
        Lookup::Constant { module_index, constant_index, sub_index, value, header } =>
            seq![module_index, constant_index, sub_index] + value@ + seq![header],
        Lookup::Bitwise { opcode, value_1, value_2, result } => seq![opcode, value_1, value_2, result],
        Lookup::Pow2 { value, pow_lo, pow_hi } => seq![value, pow_lo, pow_hi],
        Lookup::Range { value, .. } => seq![value],
        Lookup::Conditional(c, inner) => spec_input_exprs(*inner).map_values(|e: Expression| e_mul(c, e)),
    }
}

/// The number of columns of each table: one for the range tables, the tag
/// and three values for the fixed table, the location, opcode and two
/// operands for the bytecode table, the location, two limbs and the header
/// flag for the constant table, the callee's four fields for the function
/// table, the value and two halves for the powers of two, and the opcode,
/// two operands and the result for the bitwise table.
pub open spec fn table_width(t: Table) -> nat {
    match t {
        Table::Nibble | Table::U8 | Table::U10 | Table::U16 => 1,
        Table::Fixed => 4,
        Table::Bytecode => 6,
        Table::Constant => 6,
        Table::Function => 4,
        Table::Pow2 => 3,
        Table::Bitwise => 4,
    }
}

/// The tables that a single value is range-checked into.
pub open spec fn is_range_table(t: Table) -> bool {
    t == Table::Nibble || t == Table::U8 || t == Table::U10 || t == Table::U16
}

/// A range lookup reads a range table.
pub open spec fn lookup_wf(l: Lookup) -> bool
    decreases l,
{
    match l {
        Lookup::Range { table, .. } => is_range_table(table),
        Lookup::Conditional(_, inner) => lookup_wf(*inner),
        _ => true,
    }
}

/// Every well-formed lookup reads as many inputs as its table has columns.
pub proof fn lemma_input_arity(l: Lookup)
    requires
        lookup_wf(l),
    ensures
        spec_input_exprs(l).len() == table_width(spec_table(l)),
    decreases l,
{
    if let Lookup::Conditional(_, inner) = l {
        lemma_input_arity(*inner);
    }
}

/// `c * e` for each `e` of `v`.
pub fn scale_exprs(c: &Expression, v: Vec<Expression>) -> (r: Vec<Expression>)
    ensures
        r@ == v@.map_values(|e: Expression| e_mul(*c, e)),
{
    let mut r: Vec<Expression> = Vec::new();
    let mut i: usize = 0;
    while i < v.len()
        invariant
            i <= v.len(),
            r@ == v@.take(i as int).map_values(|e: Expression| e_mul(*c, e)),
        decreases v.len() - i,
    {
        r.push(Expression::mul(c.copy(), v[i].copy()));
        proof {
            assert(v@.take(i as int + 1).map_values(|e: Expression| e_mul(*c, e)) =~=
                v@.take(i as int).map_values(|e: Expression| e_mul(*c, e)).push(e_mul(*c, v@[i as int])));
        }
        i = i + 1;
    }
    proof {
        assert(v@.take(v.len() as int) =~= v@);
    }
    r
}

impl Lookup {
    /// The same lookup, enabled by `condition`.
    pub fn conditional(self, condition: Expression) -> (r: Lookup)
        ensures
            r == Lookup::Conditional(condition, Box::new(self)),
    {
        Lookup::Conditional(condition, Box::new(self))
    }

    pub fn table(&self) -> (r: Table)
        ensures
            r == spec_table(*self),
        decreases self,
    {
        match self {
            Lookup::Fixed { .. } => Table::Fixed,
            Lookup::Function { .. } => Table::Function,
            Lookup::Bitwise { .. } => Table::Bitwise,
            Lookup::Constant { .. } => Table::Constant,
            Lookup::Pow2 { .. } => Table::Pow2,
            Lookup::Range { table, .. } => *table,
            Lookup::Conditional(_, inner) => (**inner).table(),
        }
    }

    pub fn input_exprs(&self) -> (r: Vec<Expression>)
        ensures
            r@ == spec_input_exprs(*self),
            lookup_wf(*self) ==> r@.len() == table_width(spec_table(*self)),
        decreases self,
    {
        match self {
            Lookup::Fixed { tag, values } => {
                let r = vec![tag.copy(), values[0].copy(), values[1].copy(), values[2].copy()];
                proof {
                    assert(r@ =~= seq![*tag] + values@);
                }
                r
            },
            Lookup::Function { def_module_index, function_index, num_arg, entry, .. } =>
                vec![def_module_index.copy(), function_index.copy(), num_arg.copy(), entry.copy()],
            Lookup::Constant { module_index, constant_index, sub_index, value, header } => {
                let r = vec![module_index.copy(), constant_index.copy(), sub_index.copy(), value[0].copy(),
                    value[1].copy(), header.copy()];
                proof {
                    assert(r@ =~= seq![*module_index, *constant_index, *sub_index] + value@ + seq![*header]);
                }
                r
            },
            Lookup::Bitwise { opcode, value_1, value_2, result } =>
                vec![opcode.copy(), value_1.copy(), value_2.copy(), result.copy()],
            Lookup::Pow2 { value, pow_lo, pow_hi } => vec![value.copy(), pow_lo.copy(), pow_hi.copy()],
            Lookup::Range { value, .. } => vec![value.copy()],
            Lookup::Conditional(c, inner) => {
                let v = (**inner).input_exprs();
                let r = scale_exprs(c, v);
                proof {
                    if lookup_wf(*self) {
                        lemma_input_arity(*self);
                    }
                }
                r
            },
        }
    }
}

} // verus!
