use vstd::prelude::*;
use crate::expr::{Cell, Expression, Witness, e_add, e_cell, e_const, e_mul, e_sub, eval};
use crate::field::Fe;

verus! {

/// Dynamic selector that generates expressions of degree 2 to select from N
/// possible targets using N/2 + 1 cells.
#[derive(Debug)]
pub struct DynamicSelectorHalf {
    /// N value: how many possible targets this selector supports.
    pub count: usize,
    /// Whether the target is odd.  `target % 2 == 1`.
    pub target_odd: Cell,
    /// Whether the target belongs to each consecutive pair of targets.
    /// `in [0, 1], in [2, 3], in [4, 5], ...`
    pub target_pairs: Vec<Cell>,
}

/// `1 - pairs[0] - pairs[1] - ...`, folded from the first.
pub open spec fn e_one_minus_sum(pairs: Seq<Cell>) -> Expression
    decreases pairs.len(),
{
    if pairs.len() == 0 {
        e_const(1)
    } else {
        e_sub(e_one_minus_sum(pairs.drop_last()), e_cell(pairs.last()))
    }
}

/// `cell * (1 - cell)`.
pub open spec fn e_bool_check(c: Cell) -> Expression {
    e_mul(e_cell(c), e_sub(e_const(1), e_cell(c)))
}

/// The term of one target: its parity cell (or its complement) times its pair.
pub open spec fn e_target(odd: Cell, pairs: Seq<Cell>, t: nat) -> Expression {
    e_mul(
        if t % 2 == 1 { e_cell(odd) } else { e_sub(e_const(1), e_cell(odd)) },
        e_cell(pairs[(t / 2) as int]),
    )
}

/// The sum of the terms of `targets`, from the first.
pub open spec fn e_selector(odd: Cell, pairs: Seq<Cell>, targets: Seq<usize>) -> Expression
    decreases targets.len(),
{
    if targets.len() <= 1 {
        e_target(odd, pairs, targets[0] as nat)
    } else {
        e_add(e_selector(odd, pairs, targets.drop_last()), e_target(odd, pairs, targets.last() as nat))
    }
}

/// The named polynomials that `configure` returns.
pub open spec fn selector_constraints(count: nat, odd: Cell, pairs: Seq<Cell>) -> Seq<(&'static str, Expression)> {
    let base = seq![("Only one of target_pairs should be enabled", e_one_minus_sum(pairs))]
        + seq![("Representation for target_pairs and target_odd should be bool", e_bool_check(odd))]
        + pairs.map_values(|c: Cell| ("Representation for target_pairs and target_odd should be bool", e_bool_check(c)));
    if count % 2 == 1 {
        base.push(("Forbid N+1 target when N is odd", e_mul(e_cell(odd), e_cell(pairs[(count / 2) as int]))))
    } else {
        base
    }
}

impl DynamicSelectorHalf {
    /// A selector over `count` targets on the columns from `first`: the pair
    /// cells first, then the parity cell.
    pub fn new(first: usize, count: usize) -> (r: DynamicSelectorHalf)
        requires
            first + count <= usize::MAX - 2,
        ensures
            r.count == count,
            r.target_pairs@.len() == (count + 1) / 2,
            forall|i: int| 0 <= i < r.target_pairs@.len() ==>
                #[trigger] r.target_pairs@[i] == (Cell { column: (first + i) as usize, rotation: 0 }),
            r.target_odd == (Cell { column: (first + (count + 1) / 2) as usize, rotation: 0 }),
    {
        let n = (count + 1) / 2;
        let mut target_pairs: Vec<Cell> = Vec::new();
        let mut i: usize = 0;
        while i < n
            invariant
                i <= n,
                n == (count + 1) / 2,
                first + count <= usize::MAX - 2,
                target_pairs@.len() == i,
                forall|k: int| 0 <= k < i ==> #[trigger] target_pairs@[k] == (Cell { column: (first + k) as usize, rotation: 0 }),
            decreases n - i,
        {
            target_pairs.push(Cell { column: first + i, rotation: 0 });
            i = i + 1;
        }
        let target_odd = Cell { column: first + n, rotation: 0 };
        DynamicSelectorHalf { count, target_odd, target_pairs }
    }

    /// Return the list of constraints that configure this "gadget".
    pub fn configure(&self) -> (r: Vec<(&'static str, Expression)>)
        requires
            self.target_pairs@.len() == (self.count + 1) / 2,
        ensures
            r@ == selector_constraints(self.count as nat, self.target_odd, self.target_pairs@),
    {
        let mut sum = Expression::constant(1);
        let mut i: usize = 0;
        while i < self.target_pairs.len()
            invariant
                i <= self.target_pairs@.len(),
                sum == e_one_minus_sum(self.target_pairs@.take(i as int)),
            decreases self.target_pairs.len() - i,
        {
            proof {
                assert(self.target_pairs@.take(i as int + 1).drop_last() =~= self.target_pairs@.take(i as int));
            }
            sum = Expression::sub(sum, self.target_pairs[i].expr());
            i = i + 1;
        }
        proof {
            assert(self.target_pairs@.take(self.target_pairs@.len() as int) =~= self.target_pairs@);
        }
        let mut constraints: Vec<(&'static str, Expression)> = Vec::new();
        constraints.push(("Only one of target_pairs should be enabled", sum));
        constraints.push((
            "Representation for target_pairs and target_odd should be bool",
            Expression::mul(self.target_odd.expr(), Expression::sub(Expression::constant(1), self.target_odd.expr())),
        ));
        let mut i: usize = 0;
        while i < self.target_pairs.len()
            invariant
                i <= self.target_pairs@.len(),
                constraints@ == seq![("Only one of target_pairs should be enabled", e_one_minus_sum(self.target_pairs@))]
                    + seq![("Representation for target_pairs and target_odd should be bool", e_bool_check(self.target_odd))]
                    + self.target_pairs@.take(i as int).map_values(|c: Cell|
                        ("Representation for target_pairs and target_odd should be bool", e_bool_check(c))),
            decreases self.target_pairs.len() - i,
        {
            let c = self.target_pairs[i];
            constraints.push((
                "Representation for target_pairs and target_odd should be bool",
                Expression::mul(c.expr(), Expression::sub(Expression::constant(1), c.expr())),
            ));
            proof {
                assert(self.target_pairs@.take(i as int + 1) =~= self.target_pairs@.take(i as int).push(c));
                assert(self.target_pairs@.take(i as int + 1).map_values(|c: Cell|
                        ("Representation for target_pairs and target_odd should be bool", e_bool_check(c)))
                    =~= self.target_pairs@.take(i as int).map_values(|c: Cell|
                        ("Representation for target_pairs and target_odd should be bool", e_bool_check(c))).push(
                        ("Representation for target_pairs and target_odd should be bool", e_bool_check(c))));
            }
            i = i + 1;
        }
        proof {
            assert(self.target_pairs@.take(self.target_pairs@.len() as int) =~= self.target_pairs@);
        }
        if self.count % 2 == 1 {
            let k = self.count / 2;
            constraints.push((
                "Forbid N+1 target when N is odd",
                Expression::mul(self.target_odd.expr(), self.target_pairs[k].expr()),
            ));
        }
        proof {
            assert(constraints@ =~= selector_constraints(self.count as nat, self.target_odd, self.target_pairs@));
        }
        constraints
    }

    /// The expression that is `1` on a row whose target is one of `targets`.
    pub fn selector(&self, targets: &Vec<usize>) -> (r: Expression)
        requires
            targets@.len() >= 1,
            forall|i: int| 0 <= i < targets@.len() ==> #[trigger] targets@[i] / 2 < self.target_pairs@.len(),
        ensures
            r == e_selector(self.target_odd, self.target_pairs@, targets@),
    {
        let mut acc = self.target(targets[0]);
        let mut i: usize = 1;
        proof {
            assert(targets@.take(1).len() == 1);
        }
        while i < targets.len()
            invariant
                1 <= i <= targets@.len(),
                forall|k: int| 0 <= k < targets@.len() ==> #[trigger] targets@[k] / 2 < self.target_pairs@.len(),
                acc == e_selector(self.target_odd, self.target_pairs@, targets@.take(i as int)),
            decreases targets.len() - i,
        {
            let term = self.target(targets[i]);
            proof {
                assert(targets@.take(i as int + 1).drop_last() =~= targets@.take(i as int));
            }
            acc = Expression::add(acc, term);
            i = i + 1;
        }
        proof {
            assert(targets@.take(targets@.len() as int) =~= targets@);
        }
        acc
    }

    fn target(&self, target: usize) -> (r: Expression)
        requires
            target / 2 < self.target_pairs@.len(),
        ensures
            r == e_target(self.target_odd, self.target_pairs@, target as nat),
    {
        let odd = target % 2 == 1;
        let pair_index = target / 2;
        Expression::mul(
            if odd { self.target_odd.expr() } else { Expression::sub(Expression::constant(1), self.target_odd.expr()) },
            self.target_pairs[pair_index].expr(),
        )
    }

    /// The values of the cells for `target`: the parity, then one value per
    /// pair, `1` for the target's pair.
    pub fn assign(&self, target: usize) -> (r: (Fe, Vec<Fe>))
        ensures
            r.0.val() == target % 2,
            r.1@.len() == self.target_pairs@.len(),
            forall|i: int| 0 <= i < r.1@.len() ==> (#[trigger] r.1@[i]).val() == (if i == target / 2 { 1nat } else { 0nat }),
    {
        let odd = target % 2 == 1;
        let pair_index = target / 2;
        let mut pairs: Vec<Fe> = Vec::new();
        let mut i: usize = 0;
        while i < self.target_pairs.len()
            invariant
                i <= self.target_pairs@.len(),
                pair_index == target / 2,
                pairs@.len() == i,
                forall|k: int| 0 <= k < i ==> (#[trigger] pairs@[k]).val() == (if k == target / 2 { 1nat } else { 0nat }),
            decreases self.target_pairs.len() - i,
        {
            pairs.push(Fe::from_bool(i == pair_index));
            i = i + 1;
        }
        (Fe::from_bool(odd), pairs)
    }
}

/// The selector cells as `assign` fills them for target `t`.
pub open spec fn holds_target(odd: Cell, pairs: Seq<Cell>, t: nat, w: Witness, row: int) -> bool {
    &&& eval(e_cell(odd), w, row) == t % 2
    &&& forall|j: int| 0 <= j < pairs.len() ==> #[trigger] eval(e_cell(pairs[j]), w, row) == (if j == t / 2 { 1int } else { 0int })
}

proof fn lemma_target_term(odd: Cell, pairs: Seq<Cell>, t: nat, x: nat, w: Witness, row: int)
    requires
        holds_target(odd, pairs, t, w, row),
        x / 2 < pairs.len(),
    ensures
        eval(e_target(odd, pairs, x), w, row) == (if x == t { 1int } else { 0int }),
{
    reveal_with_fuel(eval, 3);
    let o = eval(e_cell(odd), w, row);
    let pv = eval(e_cell(pairs[(x / 2) as int]), w, row);
    let par = if x % 2 == 1 { o } else { 1 - o };
    assert(eval(e_target(odd, pairs, x), w, row) == par * pv);
    if x == t {
        assert(par == 1);
        assert(pv == 1);
    } else if x / 2 != t / 2 {
        assert(pv == 0);
    } else {
        assert(x % 2 != t % 2);
        assert(par == 0);
    }
}

/// A selector picks exactly its targets: on the cells that `assign` fills for
/// target `t`, the selector of a list of distinct targets is `1` when `t` is
/// among them and `0` otherwise.
pub proof fn lemma_selector_selects(odd: Cell, pairs: Seq<Cell>, targets: Seq<usize>, t: nat, w: Witness, row: int)
    requires
        holds_target(odd, pairs, t, w, row),
        targets.len() >= 1,
        forall|i: int| 0 <= i < targets.len() ==> #[trigger] targets[i] / 2 < pairs.len(),
        forall|i: int, j: int| 0 <= i < j < targets.len() ==> targets[i] != targets[j],
    ensures
        eval(e_selector(odd, pairs, targets), w, row) == (if targets.contains(t as usize) && t <= usize::MAX { 1int } else { 0int }),
    decreases targets.len(),
{
    reveal_with_fuel(eval, 2);
    let last = targets.last();
    lemma_target_term(odd, pairs, t, last as nat, w, row);
    if targets.len() == 1 {
        if targets.contains(t as usize) && t <= usize::MAX {
            assert(targets[0] == t);
        } else {
            assert(targets[0] != t);
        }
    } else {
        let init = targets.drop_last();
        lemma_selector_selects(odd, pairs, init, t, w, row);
        if targets.contains(t as usize) && t <= usize::MAX {
            let k = choose|k: int| 0 <= k < targets.len() && targets[k] == t as usize;
            if k < targets.len() - 1 {
                assert(init[k] == t as usize);
                assert(last != t);
            }
        } else {
            assert(last != t);
            if init.contains(t as usize) {
                let k = choose|k: int| 0 <= k < init.len() && init[k] == t as usize;
                assert(targets[k] == t as usize);
            }
        }
    }
}

proof fn lemma_one_minus_sum(pairs: Seq<Cell>, t: nat, w: Witness, row: int, n: int)
    requires
        forall|j: int| 0 <= j < pairs.len() ==> #[trigger] eval(e_cell(pairs[j]), w, row) == (if j == t / 2 { 1int } else { 0int }),
        0 <= n <= pairs.len(),
    ensures
        eval(e_one_minus_sum(pairs.take(n)), w, row) == (if t / 2 < n { 0int } else { 1int }),
    decreases n,
{
    reveal_with_fuel(eval, 3);
    if n > 0 {
        lemma_one_minus_sum(pairs, t, w, row, n - 1);
        let tk = pairs.take(n);
        assert(tk.drop_last() =~= pairs.take(n - 1));
        assert(tk.last() == pairs[n - 1]);
        let v = eval(e_cell(pairs[n - 1]), w, row);
        assert(v == (if n - 1 == t / 2 { 1int } else { 0int }));
        assert(e_one_minus_sum(tk) == e_sub(e_one_minus_sum(tk.drop_last()), e_cell(tk.last())));
        assert(eval(e_one_minus_sum(tk), w, row) == eval(e_one_minus_sum(pairs.take(n - 1)), w, row) - v);
    }
}

/// The cells that `assign` fills for a target below the count satisfy every
/// constraint of the selector.
pub proof fn lemma_selector_complete(count: nat, odd: Cell, pairs: Seq<Cell>, t: nat, w: Witness, row: int)
    requires
        pairs.len() == (count + 1) / 2,
        t < count,
        holds_target(odd, pairs, t, w, row),
    ensures
        forall|i: int| 0 <= i < selector_constraints(count, odd, pairs).len() ==>
            eval(#[trigger] selector_constraints(count, odd, pairs)[i].1, w, row) == 0,
{
    reveal_with_fuel(eval, 3);
    let cs = selector_constraints(count, odd, pairs);
    lemma_one_minus_sum(pairs, t, w, row, pairs.len() as int);
    assert(pairs.take(pairs.len() as int) =~= pairs);
    assert forall|i: int| 0 <= i < cs.len() implies eval(#[trigger] cs[i].1, w, row) == 0 by {
        if i == 0 {
        } else if i == 1 {
            let o = eval(e_cell(odd), w, row);
            assert(o * (1 - o) == 0) by (nonlinear_arith) requires o == 0 || o == 1;
        } else if i < 2 + pairs.len() {
            let c = pairs[i - 2];
            let v = eval(e_cell(c), w, row);
            assert(v == 0 || v == 1);
            assert(v * (1 - v) == 0) by (nonlinear_arith) requires v == 0 || v == 1;
        } else {
            let o = eval(e_cell(odd), w, row);
            let v = eval(e_cell(pairs[(count / 2) as int]), w, row);
            if t / 2 == count / 2 {
                assert(t % 2 == 0);
                assert(o == 0);
            } else {
                assert(v == 0);
            }
            assert(o * v == 0) by (nonlinear_arith) requires o == 0 || v == 0;
        }
    }
}

} // verus!
