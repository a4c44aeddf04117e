use vstd::prelude::*;
use crate::builder::{e_boolean, e_in_set, guarded};
use crate::expr::{Expression, e_const, e_mul, e_sub};

verus! {

/// The degree of a polynomial: cells count one, products add up.
pub open spec fn degree(e: Expression) -> nat
    decreases e,
{
    match e {
        Expression::Constant(_) => 0,
        Expression::PowerOfTwo(_) => 0,
        Expression::Query(_) => 1,
        Expression::Negated(a) => degree(*a),
        Expression::Sum(a, b) => if degree(*a) >= degree(*b) { degree(*a) } else { degree(*b) },
        Expression::Product(a, b) => degree(*a) + degree(*b),
    }
}

impl Expression {
    /// The degree of the polynomial, or `usize::MAX` where it is larger.
    pub fn degree(&self) -> (r: usize)
        ensures
            r == (if degree(*self) <= usize::MAX { degree(*self) } else { usize::MAX as nat }),
        decreases self,
    {
        match self {
            Expression::Constant(_) => 0,
            Expression::PowerOfTwo(_) => 0,
            Expression::Query(_) => 1,
            Expression::Negated(a) => (**a).degree(),
            Expression::Sum(a, b) => {
                let x = (**a).degree();
                let y = (**b).degree();
                if x >= y { x } else { y }
            },
            Expression::Product(a, b) => {
                let x = (**a).degree();
                let y = (**b).degree();
                x.saturating_add(y)
            },
        }
    }
}

/// A constraint builder for plain gates: named polynomials, all under an
/// optional condition, whose degrees stay within `max_degree` (no bound at
/// `0`).
#[derive(Debug)]
pub struct BaseConstraintBuilder {
    pub constraints: Vec<(&'static str, Expression)>,
    pub max_degree: usize,
    pub condition: Option<Expression>,
}

/// The degree of `e` is within the bound (`0` is no bound).
pub open spec fn degree_ok(max_degree: usize, e: Expression) -> bool {
    max_degree == 0 || degree(e) <= max_degree
}

impl BaseConstraintBuilder {
    pub fn new(max_degree: usize) -> (r: BaseConstraintBuilder)
        ensures
            r.constraints@.len() == 0,
            r.max_degree == max_degree,
            r.condition is None,
    {
        BaseConstraintBuilder { constraints: Vec::new(), max_degree, condition: None }
    }

    /// Checks that a polynomial of degree `degree` fits the bound.
    pub fn validate_degree(&self, degree: usize, name: &'static str)
        requires
            self.max_degree == 0 || degree <= self.max_degree,
    {
    }

    /// Records `condition * constraint`.
    pub fn add_constraint(&mut self, name: &'static str, constraint: Expression)
        requires
            degree_ok(old(self).max_degree, guarded(old(self).condition, constraint)),
        ensures
            final(self).constraints@ == old(self).constraints@.push((name, guarded(old(self).condition, constraint))),
            final(self).max_degree == old(self).max_degree,
            final(self).condition == old(self).condition,
    {
        let constraint = match &self.condition {
            Some(condition) => Expression::mul(condition.copy(), constraint),
            None => constraint,
        };
        let d = constraint.degree();
        self.validate_degree(d, name);
        self.constraints.push((name, constraint));
    }

    pub fn require_zero(&mut self, name: &'static str, constraint: Expression)
        requires
            degree_ok(old(self).max_degree, guarded(old(self).condition, constraint)),
        ensures
            final(self).constraints@ == old(self).constraints@.push((name, guarded(old(self).condition, constraint))),
            final(self).max_degree == old(self).max_degree,
            final(self).condition == old(self).condition,
    {
        self.add_constraint(name, constraint);
    }

    pub fn require_equal(&mut self, name: &'static str, lhs: Expression, rhs: Expression)
        requires
            degree_ok(old(self).max_degree, guarded(old(self).condition, e_sub(lhs, rhs))),
        ensures
            final(self).constraints@ == old(self).constraints@.push((name, guarded(old(self).condition, e_sub(lhs, rhs)))),
            final(self).max_degree == old(self).max_degree,
            final(self).condition == old(self).condition,
    {
        self.add_constraint(name, Expression::sub(lhs, rhs));
    }

    pub fn require_boolean(&mut self, name: &'static str, value: Expression)
        requires
            degree_ok(old(self).max_degree, guarded(old(self).condition, e_boolean(value))),
        ensures
            final(self).constraints@ == old(self).constraints@.push((name, guarded(old(self).condition, e_boolean(value)))),
            final(self).max_degree == old(self).max_degree,
            final(self).condition == old(self).condition,
    {
        let v = value.copy();
        self.add_constraint(name, Expression::mul(v, Expression::not(value)));
    }

    pub fn require_true(&mut self, name: &'static str, value: Expression)
        requires
            degree_ok(old(self).max_degree, guarded(old(self).condition, e_sub(value, e_const(1)))),
        ensures
            final(self).constraints@ == old(self).constraints@.push((name,
                guarded(old(self).condition, e_sub(value, e_const(1))))),
            final(self).max_degree == old(self).max_degree,
            final(self).condition == old(self).condition,
    {
        self.require_equal(name, value, Expression::constant(1));
    }

    /// Requires `value` to be one of `set`: the product of the differences.
    pub fn require_in_set(&mut self, name: &'static str, value: Expression, set: Vec<Expression>)
        requires
            degree_ok(old(self).max_degree, guarded(old(self).condition, e_in_set(value, set@))),
        ensures
            final(self).constraints@ == old(self).constraints@.push((name, guarded(old(self).condition,
                e_in_set(value, set@)))),
            final(self).max_degree == old(self).max_degree,
            final(self).condition == old(self).condition,
    {
        let mut acc = Expression::constant(1);
        let mut i: usize = 0;
        while i < set.len()
            invariant
                i <= set@.len(),
                acc == e_in_set(value, set@.take(i as int)),
            decreases set.len() - i,
        {
            acc = Expression::mul(acc, Expression::sub(value.copy(), set[i].copy()));
            proof {
                assert(set@.take(i as int + 1).drop_last() =~= set@.take(i as int));
            }
            i = i + 1;
        }
        proof {
            assert(set@.take(set@.len() as int) =~= set@);
        }
        self.add_constraint(name, acc);
    }

    /// Records each of `constraints`.
    pub fn add_constraints(&mut self, constraints: Vec<(&'static str, Expression)>)
        requires
            forall|i: int| 0 <= i < constraints@.len() ==>
                degree_ok(old(self).max_degree, guarded(old(self).condition, #[trigger] constraints@[i].1)),
        ensures
            final(self).constraints@ == old(self).constraints@ + constraints@.map_values(
                |c: (&'static str, Expression)| (c.0, guarded(old(self).condition, c.1))),
            final(self).max_degree == old(self).max_degree,
            final(self).condition == old(self).condition,
    {
        let mut i: usize = 0;
        while i < constraints.len()
            invariant
                i <= constraints@.len(),
                self.max_degree == old(self).max_degree,
                self.condition == old(self).condition,
                forall|k: int| 0 <= k < constraints@.len() ==>
                    degree_ok(old(self).max_degree, guarded(old(self).condition, #[trigger] constraints@[k].1)),
                self.constraints@ == old(self).constraints@ + constraints@.take(i as int).map_values(
                    |c: (&'static str, Expression)| (c.0, guarded(old(self).condition, c.1))),
            decreases constraints.len() - i,
        {
            let name = constraints[i].0;
            let c = constraints[i].1.copy();
            proof {
                assert(degree_ok(old(self).max_degree, guarded(old(self).condition, constraints@[i as int].1)));
            }
            self.add_constraint(name, c);
            proof {
                assert(constraints@.take(i as int + 1) =~= constraints@.take(i as int).push(constraints@[i as int]));
            }
            i = i + 1;
        }
        proof {
            assert(constraints@.take(constraints@.len() as int) =~= constraints@);
        }
    }

    /// Records `constraints`, each under `condition` (not nested in another).
    pub fn condition(&mut self, condition: Expression, constraints: Vec<(&'static str, Expression)>)
        requires
            old(self).condition is None,
            forall|i: int| 0 <= i < constraints@.len() ==>
                degree_ok(old(self).max_degree, e_mul(condition, #[trigger] constraints@[i].1)),
        ensures
            final(self).constraints@ == old(self).constraints@ + constraints@.map_values(
                |c: (&'static str, Expression)| (c.0, e_mul(condition, c.1))),
            final(self).max_degree == old(self).max_degree,
            final(self).condition is None,
    {
        self.condition = Some(condition);
        proof {
            assert forall|i: int| 0 <= i < constraints@.len() implies
                degree_ok(self.max_degree, guarded(self.condition, #[trigger] constraints@[i].1)) by {
                assert(guarded(self.condition, constraints@[i].1) == e_mul(condition, constraints@[i].1));
            }
        }
        self.add_constraints(constraints);
        self.condition = None;
        proof {
            let f1 = |c: (&'static str, Expression)| (c.0, guarded(Some(condition), c.1));
            let f2 = |c: (&'static str, Expression)| (c.0, e_mul(condition, c.1));
            assert(constraints@.map_values(f1) =~= constraints@.map_values(f2));
        }
    }

    /// The constraints of a gate: every recorded polynomial times `selector`.
    pub fn gate(&self, selector: Expression) -> (r: Vec<(&'static str, Expression)>)
        requires
            forall|i: int| 0 <= i < self.constraints@.len() ==>
                degree_ok(self.max_degree, e_mul(selector, #[trigger] self.constraints@[i].1)),
        ensures
            r@ == self.constraints@.map_values(|c: (&'static str, Expression)| (c.0, e_mul(selector, c.1))),
    {
        let mut r: Vec<(&'static str, Expression)> = Vec::new();
        let mut i: usize = 0;
        while i < self.constraints.len()
            invariant
                i <= self.constraints@.len(),
                forall|k: int| 0 <= k < self.constraints@.len() ==>
                    degree_ok(self.max_degree, e_mul(selector, #[trigger] self.constraints@[k].1)),
                r@ == self.constraints@.take(i as int).map_values(
                    |c: (&'static str, Expression)| (c.0, e_mul(selector, c.1))),
            decreases self.constraints.len() - i,
        {
            let name = self.constraints[i].0;
            let c = Expression::mul(selector.copy(), self.constraints[i].1.copy());
            proof {
                assert(degree_ok(self.max_degree, e_mul(selector, self.constraints@[i as int].1)));
            }
            self.validate_degree(c.degree(), name);
            r.push((name, c));
            proof {
                assert(self.constraints@.take(i as int + 1) =~= self.constraints@.take(i as int).push(self.constraints@[i as int]));
            }
            i = i + 1;
        }
        proof {
            assert(self.constraints@.take(self.constraints@.len() as int) =~= self.constraints@);
        }
        r
    }
}

} // verus!
