use vstd::prelude::*;
use crate::expr::{Cell, Expression, Witness, e_mul, e_sub, e_const, e_not, e_cell, eval};
use crate::field::{field_is_prime, field_witness, lemma_bit_of_boolean, modulus};
use crate::lookup_table::{Table, Lookup, lookup_wf, spec_table, spec_input_exprs, table_width};
use crate::step::{StepState, ExecutionState, StateField};

verus! {

/// The rows of a (possibly multi-row) execution stage at which a constraint
/// applies.
#[derive(Clone, Copy, PartialEq, Eq, Debug)]
pub enum RowScope {
    /// Every row of the stage.
    All,
    /// The first row of the stage.
    First,
    /// The last row of the stage.
    Last,
    /// Every row but the last.
    NotLast,
    /// Every row but the first.
    NotFirst,
}

/// A named polynomial constraint: `poly` must vanish (modulo the field order)
/// at every row of `scope`.
#[derive(Debug)]
pub struct Constraint {
    pub name: &'static str,
    pub scope: RowScope,
    pub poly: Expression,
}

/// How a step field changes from one row to the next.
#[derive(Debug)]
pub enum Transition {
    Same,
    Delta(Expression),
    To(Expression),
}

/// A lookup argument: `inputs` must be a row of `table` at every row of `scope`.
#[derive(Debug)]
pub struct LookupRecord {
    pub name: &'static str,
    pub scope: RowScope,
    pub table: Table,
    pub inputs: Vec<Expression>,
}

/// A requirement on the surrounding steps that is not a polynomial of this row.
#[derive(Debug)]
pub enum Requirement {
    NoStackPop,
    NoStackPush,
    NoLocalOp,
    /// The local read at this row reads an invalidated value.
    ReadInvalidValue,
    /// The local write at this row invalidates the value it writes.
    WriteInvalidValue,
    /// A named step field changes as stated into the next row.
    StateTransition(StateField, Transition),
    /// A cell changes as stated into the next row.
    CellTransition(Cell, Transition),
    /// The next stage is one of these.
    NextStates(Vec<ExecutionState>),
    /// The previous stage is one of these.
    PrevStates(Vec<ExecutionState>),
}

/// A requirement, with the rows it applies at and the condition it is under.
#[derive(Debug)]
pub struct RequirementRecord {
    pub scope: RowScope,
    pub condition: Option<Expression>,
    pub requirement: Requirement,
}

/// `poly` under an optional condition: `condition * poly`.
pub open spec fn guarded(condition: Option<Expression>, poly: Expression) -> Expression {
    match condition {
        Some(c) => e_mul(c, poly),
        None => poly,
    }
}

/// Collects the constraints, lookups and requirements of an execution gadget.
pub struct ConstraintBuilder {
    pub constraints: Vec<Constraint>,
    pub lookups: Vec<LookupRecord>,
    pub requirements: Vec<RequirementRecord>,
    /// The cells of the current step.
    pub curr: StepState,
    pub scope: RowScope,
    pub condition: Option<Expression>,
    /// The first column not yet handed out.
    pub next_column: usize,
    /// The challenge that combines the limbs of a stored value (`rlc`).
    pub challenge: Cell,
    /// The challenge that combines the fields of one row (`row_randomness`).
    pub row_randomness: Cell,
    /// The challenge that combines values over rows (`column_randomness`).
    pub column_randomness: Cell,
}

/// The inputs of a lookup under an optional condition.
pub open spec fn guarded_inputs(condition: Option<Expression>, l: Lookup) -> Seq<Expression> {
    match condition {
        Some(c) => spec_input_exprs(l).map_values(|e: Expression| e_mul(c, e)),
        None => spec_input_exprs(l),
    }
}

/// `recs` range-check each of `cells` into the byte table, at `scope`, under
/// `condition`.
pub open spec fn byte_range_records(
    recs: Seq<LookupRecord>,
    cells: Seq<Cell>,
    scope: RowScope,
    condition: Option<Expression>,
) -> bool {
    &&& recs.len() == cells.len()
    &&& forall|i: int| 0 <= i < recs.len() ==> {
        let rec = #[trigger] recs[i];
        &&& rec.table == Table::U8
        &&& rec.scope == scope
        &&& rec.inputs@ == guarded_inputs(condition, Lookup::Range { table: Table::U8, value: e_cell(cells[i]) })
    }
}

/// `recs` range-check each of `cells` into the 16-bit table, at `scope`,
/// under `condition`.
pub open spec fn u16_range_records(
    recs: Seq<LookupRecord>,
    cells: Seq<Cell>,
    scope: RowScope,
    condition: Option<Expression>,
) -> bool {
    &&& recs.len() == cells.len()
    &&& forall|i: int| 0 <= i < recs.len() ==> {
        let rec = #[trigger] recs[i];
        &&& rec.table == Table::U16
        &&& rec.scope == scope
        &&& rec.inputs@ == guarded_inputs(condition, Lookup::Range { table: Table::U16, value: e_cell(cells[i]) })
    }
}

/// `cells` are `n` consecutive fresh cells from column `start`.
pub open spec fn fresh_cells(cells: Seq<Cell>, start: nat) -> bool {
    forall|i: int| 0 <= i < cells.len() ==> #[trigger] cells[i] == (Cell { column: (start + i) as usize, rotation: 0 })
}

/// `condition` strengthened by `c`.
pub open spec fn and_condition(condition: Option<Expression>, c: Expression) -> Option<Expression> {
    match condition {
        Some(p) => Some(e_mul(p, c)),
        None => Some(c),
    }
}

/// `s * (1 - s)`, zero exactly on booleans.
pub open spec fn e_boolean(s: Expression) -> Expression {
    e_mul(s, e_not(s))
}

/// `(v - s[0]) * (v - s[1]) * ...`, starting from `1`: zero exactly when `v`
/// is in the set (`require_in_set`).
pub open spec fn e_in_set(v: Expression, set: Seq<Expression>) -> Expression
    decreases set.len(),
{
    if set.len() == 0 {
        e_const(1)
    } else {
        e_mul(e_in_set(v, set.drop_last()), e_sub(v, set.last()))
    }
}

/// In a prime field, a cell holding a field element on which the boolean
/// constraint `s * (1 - s)` vanishes holds `0` or `1`.
pub proof fn lemma_boolean_cell(cell: Cell, w: Witness, row: int)
    requires
        field_is_prime(),
        field_witness(w),
        eval(e_boolean(e_cell(cell)), w, row) % (modulus() as int) == 0,
    ensures
        eval(e_cell(cell), w, row) == 0 || eval(e_cell(cell), w, row) == 1,
{
    reveal_with_fuel(eval, 4);
    let x = eval(e_cell(cell), w, row);
    assert(0 <= w(cell.column as int, row + cell.rotation as int) < modulus());
    assert(eval(e_boolean(e_cell(cell)), w, row) == x * (1 - x));
    lemma_bit_of_boolean(x, 1 - x);
}

/// In a prime field, a cell holding a field element on which the set
/// constraint `(s - 0) * (s - 1)` vanishes holds `0` or `1`.
pub proof fn lemma_bit_set_cell(cell: Cell, w: Witness, row: int)
    requires
        field_is_prime(),
        field_witness(w),
        eval(e_in_set(e_cell(cell), seq![e_const(0), e_const(1)]), w, row) % (modulus() as int) == 0,
    ensures
        eval(e_cell(cell), w, row) == 0 || eval(e_cell(cell), w, row) == 1,
{
    reveal_with_fuel(eval, 4);
    let set = seq![e_const(0), e_const(1)];
    assert(set.drop_last() =~= seq![e_const(0)]);
    assert(set.drop_last().drop_last() =~= Seq::<Expression>::empty());
    reveal_with_fuel(e_in_set, 3);
    let x = eval(e_cell(cell), w, row);
    assert(0 <= w(cell.column as int, row + cell.rotation as int) < modulus());
    let v = e_cell(cell);
    let e0 = e_in_set(v, Seq::<Expression>::empty());
    let e1 = e_in_set(v, seq![e_const(0)]);
    assert(e0 == e_const(1));
    assert(e1 == e_mul(e0, e_sub(v, e_const(0))));
    assert(e_in_set(v, set) == e_mul(e1, e_sub(v, e_const(1))));
    assert(eval(e0, w, row) == 1);
    assert(eval(e_sub(v, e_const(0)), w, row) == x);
    assert(eval(e1, w, row) == 1 * x);
    assert(eval(e1, w, row) == x);
    assert(eval(e_in_set(v, set), w, row) == x * (x - 1));
    lemma_bit_of_boolean(x, x - 1);
}

/// A constraint at `scope` with no condition.
/// `r` requires, at `scope` under `condition`, the next (`next`) or the
/// previous stage to be one of `states`.
pub open spec fn states_record(r: RequirementRecord, scope: RowScope, condition: Option<Expression>, next: bool,
    states: Seq<ExecutionState>) -> bool {
    &&& r.scope == scope
    &&& r.condition == condition
    &&& if next {
        r.requirement matches Requirement::NextStates(v) && v@ == states
    } else {
        r.requirement matches Requirement::PrevStates(v) && v@ == states
    }
}

pub open spec fn at(scope: RowScope, name: &'static str, poly: Expression) -> Constraint {
    Constraint { name, scope, poly }
}

/// A requirement record at `scope` under `condition`.
pub open spec fn req(scope: RowScope, condition: Option<Expression>, r: Requirement) -> RequirementRecord {
    RequirementRecord { scope, condition, requirement: r }
}

/// The records that `require_state_transitions` makes for `ts` at `scope`
/// under `condition`, one per pair, in order.
pub open spec fn transition_records(
    scope: RowScope,
    condition: Option<Expression>,
    ts: Seq<(StateField, Transition)>,
) -> Seq<RequirementRecord> {
    ts.map_values(|t: (StateField, Transition)| req(scope, condition, Requirement::StateTransition(t.0, t.1)))
}

impl Transition {
    pub fn copy(&self) -> (r: Transition)
        ensures
            r == *self,
    {
        match self {
            Transition::Same => Transition::Same,
            Transition::Delta(e) => Transition::Delta(e.copy()),
            Transition::To(e) => Transition::To(e.copy()),
        }
    }
}

pub fn copy_option(o: &Option<Expression>) -> (r: Option<Expression>)
    ensures
        r == *o,
{
    match o {
        Some(e) => Some(e.copy()),
        None => None,
    }
}

impl ConstraintBuilder {
    /// The cells of the current step are read at the current row.
    pub open spec fn wf(self) -> bool {
        self.curr.is_current()
    }

    /// At least `n` more cells can be handed out.
    pub open spec fn has_room(self, n: nat) -> bool {
        self.next_column + n <= usize::MAX
    }

    /// The constraint that `require_zero(name, poly)` adds here.
    pub open spec fn spec_constraint(self, name: &'static str, poly: Expression) -> Constraint {
        Constraint { name, scope: self.scope, poly: guarded(self.condition, poly) }
    }

    /// The constraint that `require_zero(name, poly)` adds here inside
    /// `condition(cond, ..)`.
    pub open spec fn spec_constraint_if(self, cond: Expression, name: &'static str, poly: Expression) -> Constraint {
        Constraint { name, scope: self.scope, poly: guarded(and_condition(self.condition, cond), poly) }
    }

    /// The requirement record that a requirement makes here.
    pub open spec fn spec_requirement(self, req: Requirement) -> RequirementRecord {
        RequirementRecord { scope: self.scope, condition: self.condition, requirement: req }
    }

    /// `rec` is the record of lookup `l` named `name` made here.
    pub open spec fn records_lookup(self, rec: LookupRecord, name: &'static str, l: Lookup) -> bool {
        &&& rec.name == name
        &&& rec.scope == self.scope
        &&& rec.table == spec_table(l)
        &&& rec.inputs@ == guarded_inputs(self.condition, l)
    }

    /// Nothing but the recorded lookups changed.
    pub open spec fn only_lookups_changed(self, old: ConstraintBuilder) -> bool {
        &&& self.constraints == old.constraints
        &&& self.requirements == old.requirements
        &&& self.curr == old.curr
        &&& self.scope == old.scope
        &&& self.condition == old.condition
        &&& self.next_column == old.next_column
    }

    /// Nothing but the recorded constraints changed.
    pub open spec fn only_constraints_changed(self, old: ConstraintBuilder) -> bool {
        &&& self.lookups == old.lookups
        &&& self.requirements == old.requirements
        &&& self.curr == old.curr
        &&& self.scope == old.scope
        &&& self.condition == old.condition
        &&& self.next_column == old.next_column
    }

    /// Nothing but the recorded requirements changed.
    pub open spec fn only_requirements_changed(self, old: ConstraintBuilder) -> bool {
        &&& self.lookups == old.lookups
        &&& self.constraints == old.constraints
        &&& self.curr == old.curr
        &&& self.scope == old.scope
        &&& self.condition == old.condition
        &&& self.next_column == old.next_column
    }

    /// A builder for a step on columns `3 ..`, with the challenge of stored
    /// values in column `0` and the row and column challenges in columns `1`
    /// and `2`.
    pub fn new() -> (cb: ConstraintBuilder)
        ensures
            cb.wf(),
            cb.constraints@.len() == 0,
            cb.lookups@.len() == 0,
            cb.requirements@.len() == 0,
            cb.scope == RowScope::All,
            cb.condition is None,
            cb.curr == crate::step::step_layout(3, Cell { column: 0, rotation: 0 }),
            cb.challenge == (Cell { column: 0, rotation: 0 }),
            cb.row_randomness == (Cell { column: 1, rotation: 0 }),
            cb.column_randomness == (Cell { column: 2, rotation: 0 }),
            cb.next_column == 3 + crate::step::NUM_OF_STEP_CELLS,
    {
        let challenge = Cell { column: 0, rotation: 0 };
        ConstraintBuilder {
            constraints: Vec::new(),
            lookups: Vec::new(),
            requirements: Vec::new(),
            curr: StepState::allocate(3, challenge),
            scope: RowScope::All,
            condition: None,
            next_column: 3 + crate::step::NUM_OF_STEP_CELLS,
            challenge,
            row_randomness: Cell { column: 1, rotation: 0 },
            column_randomness: Cell { column: 2, rotation: 0 },
        }
    }

    /// The random linear combination of `values` by the challenge of stored
    /// values.
    pub fn rlc(&self, values: &Vec<Expression>) -> (r: Expression)
        ensures
            r == crate::expr::e_rlc(values@, e_cell(self.challenge)),
    {
        Expression::rlc(values, &self.challenge.expr())
    }

    /// The challenge that combines the fields of one row.
    pub fn row_randomness(&self) -> (r: Expression)
        ensures
            r == e_cell(self.row_randomness),
    {
        self.row_randomness.expr()
    }

    /// The challenge that combines values over rows.
    pub fn column_randomness(&self) -> (r: Expression)
        ensures
            r == e_cell(self.column_randomness),
    {
        self.column_randomness.expr()
    }

    /// Records `condition * poly` at the current rows (`add_constraint`).
    pub fn require_zero(&mut self, name: &'static str, poly: Expression)
        ensures
            final(self).constraints@ == old(self).constraints@.push(old(self).spec_constraint(name, poly)),
            final(self).only_constraints_changed(*old(self)),
    {
        let p = match &self.condition {
            Some(c) => Expression::mul(c.copy(), poly),
            None => poly,
        };
        self.constraints.push(Constraint { name, scope: self.scope, poly: p });
    }

    pub fn require_equal(&mut self, name: &'static str, lhs: Expression, rhs: Expression)
        ensures
            final(self).constraints@ == old(self).constraints@.push(old(self).spec_constraint(name, e_sub(lhs, rhs))),
            final(self).only_constraints_changed(*old(self)),
    {
        self.require_zero(name, Expression::sub(lhs, rhs));
    }

    pub fn require_boolean(&mut self, name: &'static str, value: Expression)
        ensures
            final(self).constraints@ == old(self).constraints@.push(old(self).spec_constraint(name, e_boolean(value))),
            final(self).only_constraints_changed(*old(self)),
    {
        let v = value.copy();
        self.require_zero(name, Expression::mul(v, Expression::not(value)));
    }

    pub fn require_true(&mut self, name: &'static str, value: Expression)
        ensures
            final(self).constraints@ == old(self).constraints@.push(old(self).spec_constraint(name, e_sub(value, e_const(1)))),
            final(self).only_constraints_changed(*old(self)),
    {
        self.require_equal(name, value, Expression::constant(1));
    }

    pub fn require_in_set(&mut self, name: &'static str, value: Expression, set: Vec<Expression>)
        ensures
            final(self).constraints@ == old(self).constraints@.push(old(self).spec_constraint(name, e_in_set(value, set@))),
            final(self).only_constraints_changed(*old(self)),
    {
        let mut acc = Expression::constant(1);
        let mut i: usize = 0;
        while i < set.len()
            invariant
                i <= set.len(),
                acc == e_in_set(value, set@.take(i as int)),
            decreases set.len() - i,
        {
            acc = Expression::mul(acc, Expression::sub(value.copy(), set[i].copy()));
            proof {
                let t = set@.take(i as int + 1);
                assert(t.drop_last() =~= set@.take(i as int));
            }
            i = i + 1;
        }
        proof {
            assert(set@.take(set.len() as int) =~= set@);
        }
        self.require_zero(name, acc);
    }

    /// Records lookup `l` at the current rows, under the current condition.
    pub fn add_lookup(&mut self, name: &'static str, l: Lookup)
        ensures
            final(self).lookups@.len() == old(self).lookups@.len() + 1,
            final(self).lookups@.drop_last() == old(self).lookups@,
            old(self).records_lookup(final(self).lookups@.last(), name, l),
            lookup_wf(l) ==> final(self).lookups@.last().inputs@.len() == table_width(final(self).lookups@.last().table),
            final(self).only_lookups_changed(*old(self)),
    {
        let table = l.table();
        let raw = l.input_exprs();
        let inputs = match &self.condition {
            Some(c) => crate::lookup_table::scale_exprs(c, raw),
            None => raw,
        };
        self.lookups.push(LookupRecord { name, scope: self.scope, table, inputs });
        proof {
            assert(self.lookups@.drop_last() =~= old(self).lookups@);
        }
    }

    /// Records a requirement at the current rows, under the current condition.
    fn require(&mut self, req: Requirement)
        ensures
            final(self).requirements@ == old(self).requirements@.push(old(self).spec_requirement(req)),
            final(self).only_requirements_changed(*old(self)),
    {
        let condition = copy_option(&self.condition);
        self.requirements.push(RequirementRecord { scope: self.scope, condition, requirement: req });
    }

    pub fn require_no_stack_pop(&mut self)
        ensures
            final(self).requirements@ == old(self).requirements@.push(old(self).spec_requirement(Requirement::NoStackPop)),
            final(self).only_requirements_changed(*old(self)),
    {
        self.require(Requirement::NoStackPop);
    }

    pub fn require_no_stack_push(&mut self)
        ensures
            final(self).requirements@ == old(self).requirements@.push(old(self).spec_requirement(Requirement::NoStackPush)),
            final(self).only_requirements_changed(*old(self)),
    {
        self.require(Requirement::NoStackPush);
    }

    pub fn require_no_local_op(&mut self)
        ensures
            final(self).requirements@ == old(self).requirements@.push(old(self).spec_requirement(Requirement::NoLocalOp)),
            final(self).only_requirements_changed(*old(self)),
    {
        self.require(Requirement::NoLocalOp);
    }

    pub fn require_read_invalid_value(&mut self)
        ensures
            final(self).requirements@ == old(self).requirements@.push(old(self).spec_requirement(Requirement::ReadInvalidValue)),
            final(self).only_requirements_changed(*old(self)),
    {
        self.require(Requirement::ReadInvalidValue);
    }

    pub fn require_write_invalid_value(&mut self)
        ensures
            final(self).requirements@ == old(self).requirements@.push(old(self).spec_requirement(Requirement::WriteInvalidValue)),
            final(self).only_requirements_changed(*old(self)),
    {
        self.require(Requirement::WriteInvalidValue);
    }

    /// Requires one step field to change as stated into the next row.
    pub fn require_state_transition(&mut self, field: StateField, t: Transition)
        ensures
            final(self).requirements@ == old(self).requirements@.push(
                old(self).spec_requirement(Requirement::StateTransition(field, t)),
            ),
            final(self).only_requirements_changed(*old(self)),
    {
        self.require(Requirement::StateTransition(field, t));
    }

    /// Requires each listed step field to change as stated into the next row.
    pub fn require_state_transitions(&mut self, ts: Vec<(StateField, Transition)>)
        ensures
            final(self).requirements@ == old(self).requirements@
                + transition_records(old(self).scope, old(self).condition, ts@),
            final(self).only_requirements_changed(*old(self)),
    {
        let mut i: usize = 0;
        while i < ts.len()
            invariant
                i <= ts.len(),
                self.requirements@ == old(self).requirements@
                    + transition_records(old(self).scope, old(self).condition, ts@.take(i as int)),
                self.only_requirements_changed(*old(self)),
            decreases ts.len() - i,
        {
            let field = ts[i].0;
            let t = ts[i].1.copy();
            self.require_state_transition(field, t);
            proof {
                assert(ts@.take(i as int + 1) =~= ts@.take(i as int).push(ts@[i as int]));
                assert(transition_records(old(self).scope, old(self).condition, ts@.take(i as int + 1)) =~=
                    transition_records(old(self).scope, old(self).condition, ts@.take(i as int)).push(
                        req(old(self).scope, old(self).condition, Requirement::StateTransition(ts@[i as int].0, ts@[i as int].1))));
            }
            i = i + 1;
        }
        proof {
            assert(ts@.take(ts.len() as int) =~= ts@);
        }
    }

    /// Requires a cell to change as stated into the next row.
    pub fn require_cell_transition(&mut self, cell: Cell, t: Transition)
        ensures
            final(self).requirements@ == old(self).requirements@.push(
                old(self).spec_requirement(Requirement::CellTransition(cell, t)),
            ),
            final(self).only_requirements_changed(*old(self)),
    {
        self.require(Requirement::CellTransition(cell, t));
    }

    pub fn require_next_states(&mut self, states: Vec<ExecutionState>)
        ensures
            final(self).requirements@ == old(self).requirements@.push(
                old(self).spec_requirement(Requirement::NextStates(states)),
            ),
            final(self).only_requirements_changed(*old(self)),
    {
        self.require(Requirement::NextStates(states));
    }

    pub fn require_next_state(&mut self, state: ExecutionState)
        ensures
            final(self).requirements.len() == old(self).requirements.len() + 1,
            final(self).requirements@.drop_last() == old(self).requirements@,
            final(self).requirements@.last().scope == old(self).scope,
            final(self).requirements@.last().condition == old(self).condition,
            final(self).requirements@.last().requirement matches Requirement::NextStates(v) && v@ == seq![state],
            final(self).only_requirements_changed(*old(self)),
    {
        self.require_next_states(vec![state]);
        proof {
            assert(self.requirements@.drop_last() =~= old(self).requirements@);
        }
    }

    pub fn require_prev_states(&mut self, states: Vec<ExecutionState>)
        ensures
            final(self).requirements@ == old(self).requirements@.push(
                old(self).spec_requirement(Requirement::PrevStates(states)),
            ),
            final(self).only_requirements_changed(*old(self)),
    {
        self.require(Requirement::PrevStates(states));
    }

    pub fn require_prev_state(&mut self, state: ExecutionState)
        ensures
            final(self).requirements.len() == old(self).requirements.len() + 1,
            final(self).requirements@.drop_last() == old(self).requirements@,
            final(self).requirements@.last().scope == old(self).scope,
            final(self).requirements@.last().condition == old(self).condition,
            final(self).requirements@.last().requirement matches Requirement::PrevStates(v) && v@ == seq![state],
            final(self).only_requirements_changed(*old(self)),
    {
        self.require_prev_states(vec![state]);
        proof {
            assert(self.requirements@.drop_last() =~= old(self).requirements@);
        }
    }

    /// Enters a condition; returns the one to restore.
    pub fn condition_begin(&mut self, c: Expression) -> (prev: Option<Expression>)
        ensures
            prev == old(self).condition,
            final(self).condition == and_condition(old(self).condition, c),
            final(self).constraints == old(self).constraints,
            final(self).lookups == old(self).lookups,
            final(self).requirements == old(self).requirements,
            final(self).curr == old(self).curr,
            final(self).scope == old(self).scope,
            final(self).next_column == old(self).next_column,
    {
        let prev = copy_option(&self.condition);
        let next = match &self.condition {
            Some(p) => Expression::mul(p.copy(), c),
            None => c,
        };
        self.condition = Some(next);
        prev
    }

    /// Leaves a condition, restoring `prev`.
    pub fn condition_end(&mut self, prev: Option<Expression>)
        ensures
            final(self).condition == prev,
            final(self).constraints == old(self).constraints,
            final(self).lookups == old(self).lookups,
            final(self).requirements == old(self).requirements,
            final(self).curr == old(self).curr,
            final(self).scope == old(self).scope,
            final(self).next_column == old(self).next_column,
    {
        self.condition = prev;
    }

    /// Restricts what follows to rows of `scope`; returns the scope to restore
    /// (`first_row`, `last_row`, `not_last_row`).
    pub fn scope_begin(&mut self, scope: RowScope) -> (prev: RowScope)
        ensures
            prev == old(self).scope,
            final(self).scope == scope,
            final(self).constraints == old(self).constraints,
            final(self).lookups == old(self).lookups,
            final(self).requirements == old(self).requirements,
            final(self).curr == old(self).curr,
            final(self).condition == old(self).condition,
            final(self).next_column == old(self).next_column,
    {
        let prev = self.scope;
        self.scope = scope;
        prev
    }

    /// Restores the scope `prev`.
    pub fn scope_end(&mut self, prev: RowScope)
        ensures
            final(self).scope == prev,
            final(self).constraints == old(self).constraints,
            final(self).lookups == old(self).lookups,
            final(self).requirements == old(self).requirements,
            final(self).curr == old(self).curr,
            final(self).condition == old(self).condition,
            final(self).next_column == old(self).next_column,
    {
        self.scope = prev;
    }

    /// A fresh cell.
    pub fn query_cell(&mut self) -> (c: Cell)
        requires
            old(self).has_room(1),
        ensures
            c == (Cell { column: old(self).next_column, rotation: 0 }),
            final(self).next_column == old(self).next_column + 1,
            final(self).constraints == old(self).constraints,
            final(self).lookups == old(self).lookups,
            final(self).requirements == old(self).requirements,
            final(self).curr == old(self).curr,
            final(self).scope == old(self).scope,
            final(self).condition == old(self).condition,
    {
        let c = Cell { column: self.next_column, rotation: 0 };
        self.next_column = self.next_column + 1;
        c
    }

    /// `n` fresh cells (`query_cells`).
    pub fn query_cells(&mut self, n: usize) -> (cells: Vec<Cell>)
        requires
            old(self).has_room(n as nat),
        ensures
            cells@.len() == n,
            fresh_cells(cells@, old(self).next_column as nat),
            final(self).next_column == old(self).next_column + n,
            final(self).constraints == old(self).constraints,
            final(self).lookups == old(self).lookups,
            final(self).requirements == old(self).requirements,
            final(self).curr == old(self).curr,
            final(self).scope == old(self).scope,
            final(self).condition == old(self).condition,
    {
        let mut cells: Vec<Cell> = Vec::new();
        let mut i: usize = 0;
        while i < n
            invariant
                i <= n,
                old(self).has_room(n as nat),
                cells@.len() == i,
                fresh_cells(cells@, old(self).next_column as nat),
                self.next_column == old(self).next_column + i,
                self.constraints == old(self).constraints,
                self.lookups == old(self).lookups,
                self.requirements == old(self).requirements,
                self.curr == old(self).curr,
                self.scope == old(self).scope,
                self.condition == old(self).condition,
            decreases n - i,
        {
            let c = self.query_cell();
            cells.push(c);
            i = i + 1;
        }
        cells
    }

    /// A fresh cell required to be boolean.
    pub fn query_bool(&mut self) -> (c: Cell)
        requires
            old(self).has_room(1),
        ensures
            c == (Cell { column: old(self).next_column, rotation: 0 }),
            final(self).next_column == old(self).next_column + 1,
            final(self).constraints@ == old(self).constraints@.push(
                old(self).spec_constraint("Constrain cell to be a bool", e_boolean(e_cell(c))),
            ),
            final(self).lookups == old(self).lookups,
            final(self).requirements == old(self).requirements,
            final(self).curr == old(self).curr,
            final(self).scope == old(self).scope,
            final(self).condition == old(self).condition,
    {
        let c = self.query_cell();
        self.require_boolean("Constrain cell to be a bool", c.expr());
        c
    }

    /// `n` fresh cells, each required to be boolean (`query_bools`).
    pub fn query_bools(&mut self, n: usize) -> (cells: Vec<Cell>)
        requires
            old(self).has_room(n as nat),
        ensures
            cells@.len() == n,
            fresh_cells(cells@, old(self).next_column as nat),
            final(self).next_column == old(self).next_column + n,
            final(self).constraints@ == old(self).constraints@ + Seq::new(n as nat, |i: int|
                old(self).spec_constraint("Constrain cell to be a bool", e_boolean(e_cell(cells@[i])))),
            final(self).lookups == old(self).lookups,
            final(self).requirements == old(self).requirements,
            final(self).curr == old(self).curr,
            final(self).scope == old(self).scope,
            final(self).condition == old(self).condition,
    {
        let mut cells: Vec<Cell> = Vec::new();
        let mut i: usize = 0;
        while i < n
            invariant
                i <= n,
                old(self).has_room(n as nat),
                cells@.len() == i,
                fresh_cells(cells@, old(self).next_column as nat),
                self.next_column == old(self).next_column + i,
                self.constraints@ == old(self).constraints@ + Seq::new(i as nat, |k: int|
                    old(self).spec_constraint("Constrain cell to be a bool", e_boolean(e_cell(cells@[k])))),
                self.lookups == old(self).lookups,
                self.requirements == old(self).requirements,
                self.curr == old(self).curr,
                self.scope == old(self).scope,
                self.condition == old(self).condition,
            decreases n - i,
        {
            let c = self.query_bool();
            cells.push(c);
            proof {
                assert(self.constraints@ =~= old(self).constraints@ + Seq::new((i + 1) as nat, |k: int|
                    old(self).spec_constraint("Constrain cell to be a bool", e_boolean(e_cell(cells@[k])))));
            }
            i = i + 1;
        }
        cells
    }

    /// A fresh cell that a range table bounds.
    fn query_ranged(&mut self, table: Table) -> (c: Cell)
        requires
            old(self).has_room(1),
        ensures
            c == (Cell { column: old(self).next_column, rotation: 0 }),
            final(self).next_column == old(self).next_column + 1,
            final(self).lookups@.len() == old(self).lookups@.len() + 1,
            final(self).lookups@.drop_last() == old(self).lookups@,
            final(self).lookups@.last().scope == old(self).scope,
            final(self).lookups@.last().table == table,
            final(self).lookups@.last().inputs@ == guarded_inputs(
                old(self).condition,
                Lookup::Range { table, value: e_cell(c) },
            ),
            final(self).constraints == old(self).constraints,
            final(self).requirements == old(self).requirements,
            final(self).curr == old(self).curr,
            final(self).scope == old(self).scope,
            final(self).condition == old(self).condition,
    {
        let c = self.query_cell();
        self.add_lookup("range of a queried cell", Lookup::Range { table, value: c.expr() });
        c
    }

    /// `n` fresh cells, each bounded by the byte table.
    pub fn query_bytes(&mut self, n: usize) -> (cells: Vec<Cell>)
        requires
            old(self).has_room(n as nat),
        ensures
            cells@.len() == n,
            forall|i: int| 0 <= i < n ==> #[trigger] cells@[i] == (Cell { column: (old(self).next_column + i) as usize, rotation: 0 }),
            final(self).next_column == old(self).next_column + n,
            final(self).lookups@.len() == old(self).lookups@.len() + n,
            final(self).lookups@.take(old(self).lookups@.len() as int) == old(self).lookups@,
            byte_range_records(final(self).lookups@.skip(old(self).lookups@.len() as int), cells@, old(self).scope, old(self).condition),
            fresh_cells(cells@, old(self).next_column as nat),
            final(self).constraints == old(self).constraints,
            final(self).requirements == old(self).requirements,
            final(self).curr == old(self).curr,
            final(self).scope == old(self).scope,
            final(self).condition == old(self).condition,
    {
        let mut cells: Vec<Cell> = Vec::new();
        let mut i: usize = 0;
        while i < n
            invariant
                i <= n,
                old(self).has_room(n as nat),
                cells@.len() == i,
                forall|k: int| 0 <= k < i ==> #[trigger] cells@[k] == (Cell { column: (old(self).next_column + k) as usize, rotation: 0 }),
                self.next_column == old(self).next_column + i,
                self.lookups@.len() == old(self).lookups@.len() + i,
                self.lookups@.take(old(self).lookups@.len() as int) == old(self).lookups@,
                forall|k: int| 0 <= k < i ==> {
                    let rec = #[trigger] self.lookups@[old(self).lookups@.len() + k];
                    &&& rec.table == Table::U8
                    &&& rec.scope == old(self).scope
                    &&& rec.inputs@ == guarded_inputs(old(self).condition, Lookup::Range { table: Table::U8, value: e_cell(cells@[k]) })
                },
                self.constraints == old(self).constraints,
                self.requirements == old(self).requirements,
                self.curr == old(self).curr,
                self.scope == old(self).scope,
                self.condition == old(self).condition,
            decreases n - i,
        {
            let ghost before = self.lookups@;
            let c = self.query_ranged(Table::U8);
            cells.push(c);
            proof {
                assert(self.lookups@.take(old(self).lookups@.len() as int) =~= before.take(old(self).lookups@.len() as int));
                assert forall|k: int| 0 <= k < i + 1 implies {
                    let rec = #[trigger] self.lookups@[old(self).lookups@.len() + k];
                    &&& rec.table == Table::U8
                    &&& rec.scope == old(self).scope
                    &&& rec.inputs@ == guarded_inputs(old(self).condition, Lookup::Range { table: Table::U8, value: e_cell(cells@[k]) })
                } by {
                    if k < i {
                        assert(self.lookups@[old(self).lookups@.len() + k] == before[old(self).lookups@.len() + k]);
                    }
                }
            }
            i = i + 1;
        }
        proof {
            let k0 = old(self).lookups@.len() as int;
            let t = self.lookups@.skip(k0);
            assert forall|i: int| 0 <= i < t.len() implies {
                let rec = #[trigger] t[i];
                &&& rec.table == Table::U8
                &&& rec.scope == old(self).scope
                &&& rec.inputs@ == guarded_inputs(old(self).condition, Lookup::Range { table: Table::U8, value: e_cell(cells@[i]) })
            } by {
                assert(t[i] == self.lookups@[k0 + i]);
            }
        }
        cells
    }

    /// `n` fresh cells, each bounded by the 16-bit table.
    pub fn query_u16s(&mut self, n: usize) -> (cells: Vec<Cell>)
        requires
            old(self).has_room(n as nat),
        ensures
            cells@.len() == n,
            forall|i: int| 0 <= i < n ==> #[trigger] cells@[i] == (Cell { column: (old(self).next_column + i) as usize, rotation: 0 }),
            final(self).next_column == old(self).next_column + n,
            final(self).lookups@.len() == old(self).lookups@.len() + n,
            final(self).lookups@.take(old(self).lookups@.len() as int) == old(self).lookups@,
            u16_range_records(final(self).lookups@.skip(old(self).lookups@.len() as int), cells@, old(self).scope, old(self).condition),
            fresh_cells(cells@, old(self).next_column as nat),
            final(self).constraints == old(self).constraints,
            final(self).requirements == old(self).requirements,
            final(self).curr == old(self).curr,
            final(self).scope == old(self).scope,
            final(self).condition == old(self).condition,
    {
        let mut cells: Vec<Cell> = Vec::new();
        let mut i: usize = 0;
        while i < n
            invariant
                i <= n,
                old(self).has_room(n as nat),
                cells@.len() == i,
                forall|k: int| 0 <= k < i ==> #[trigger] cells@[k] == (Cell { column: (old(self).next_column + k) as usize, rotation: 0 }),
                self.next_column == old(self).next_column + i,
                self.lookups@.len() == old(self).lookups@.len() + i,
                self.lookups@.take(old(self).lookups@.len() as int) == old(self).lookups@,
                forall|k: int| 0 <= k < i ==> {
                    let rec = #[trigger] self.lookups@[old(self).lookups@.len() + k];
                    &&& rec.table == Table::U16
                    &&& rec.scope == old(self).scope
                    &&& rec.inputs@ == guarded_inputs(old(self).condition, Lookup::Range { table: Table::U16, value: e_cell(cells@[k]) })
                },
                self.constraints == old(self).constraints,
                self.requirements == old(self).requirements,
                self.curr == old(self).curr,
                self.scope == old(self).scope,
                self.condition == old(self).condition,
            decreases n - i,
        {
            let ghost before = self.lookups@;
            let c = self.query_ranged(Table::U16);
            cells.push(c);
            proof {
                assert(self.lookups@.take(old(self).lookups@.len() as int) =~= before.take(old(self).lookups@.len() as int));
                assert forall|k: int| 0 <= k < i + 1 implies {
                    let rec = #[trigger] self.lookups@[old(self).lookups@.len() + k];
                    &&& rec.table == Table::U16
                    &&& rec.scope == old(self).scope
                    &&& rec.inputs@ == guarded_inputs(old(self).condition, Lookup::Range { table: Table::U16, value: e_cell(cells@[k]) })
                } by {
                    if k < i {
                        assert(self.lookups@[old(self).lookups@.len() + k] == before[old(self).lookups@.len() + k]);
                    }
                }
            }
            i = i + 1;
        }
        proof {
            let k0 = old(self).lookups@.len() as int;
            let t = self.lookups@.skip(k0);
            assert forall|i: int| 0 <= i < t.len() implies {
                let rec = #[trigger] t[i];
                &&& rec.table == Table::U16
                &&& rec.scope == old(self).scope
                &&& rec.inputs@ == guarded_inputs(old(self).condition, Lookup::Range { table: Table::U16, value: e_cell(cells@[i]) })
            } by {
                assert(t[i] == self.lookups@[k0 + i]);
            }
        }
        cells
    }

    /// A fresh cell bounded by the 16-bit table.
    pub fn query_u16(&mut self) -> (c: Cell)
        requires
            old(self).has_room(1),
        ensures
            c == (Cell { column: old(self).next_column, rotation: 0 }),
            final(self).next_column == old(self).next_column + 1,
            final(self).lookups@.len() == old(self).lookups@.len() + 1,
            final(self).lookups@.drop_last() == old(self).lookups@,
            final(self).lookups@.last().scope == old(self).scope,
            final(self).lookups@.last().table == Table::U16,
            final(self).lookups@.last().inputs@ == guarded_inputs(
                old(self).condition,
                Lookup::Range { table: Table::U16, value: e_cell(c) },
            ),
            final(self).constraints == old(self).constraints,
            final(self).requirements == old(self).requirements,
            final(self).curr == old(self).curr,
            final(self).scope == old(self).scope,
            final(self).condition == old(self).condition,
    {
        self.query_ranged(Table::U16)
    }

    /// `cells`, each read `off` rows further (`cells_at_offset`).
    pub fn cells_at_offset(&self, cells: &Vec<Cell>, off: i32) -> (r: Vec<Cell>)
        requires
            forall|i: int| 0 <= i < cells@.len() ==> #[trigger] cells@[i].rotation == 0,
        ensures
            r@.len() == cells@.len(),
            forall|i: int| 0 <= i < cells@.len() ==> #[trigger] r@[i] == crate::step::rotate(cells@[i], off as int),
    {
        let mut r: Vec<Cell> = Vec::new();
        let mut i: usize = 0;
        while i < cells.len()
            invariant
                i <= cells.len(),
                r@.len() == i,
                forall|k: int| 0 <= k < cells@.len() ==> #[trigger] cells@[k].rotation == 0,
                forall|k: int| 0 <= k < i ==> #[trigger] r@[k] == crate::step::rotate(cells@[k], off as int),
            decreases cells.len() - i,
        {
            r.push(cells[i].at_offset(off));
            i = i + 1;
        }
        r
    }

    /// The current step read `off` rows further (`step_state_at_offset`).
    pub fn step_state_at_offset(&self, off: i32) -> (s: StepState)
        requires
            self.wf(),
        ensures
            s == self.curr.spec_at_offset(off as int),
    {
        self.curr.at_offset(off)
    }
}

} // verus!

