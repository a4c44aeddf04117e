use vstd::prelude::*;
use vstd::arithmetic::power2::*;

verus! {

/// A reference to a witness cell: an advice column and a row rotation relative
/// to the row at which a constraint is evaluated.
#[derive(Clone, Copy, PartialEq, Eq, Debug)]
pub struct Cell {
    pub column: usize,
    pub rotation: i32,
}

/// A witness assignment: the value of column `c` at absolute row `r` is `w(c, r)`.
pub type Witness = spec_fn(int, int) -> int;

/// A polynomial over witness cells, the library's own form of
/// `halo2_proofs::plonk::Expression`.
#[derive(Debug)]
pub enum Expression {
    /// A small constant.
    Constant(u128),
    /// The constant `2^k`.
    PowerOfTwo(u32),
    /// The value of a witness cell.
    Query(Cell),
    Negated(Box<Expression>),
    Sum(Box<Expression>, Box<Expression>),
    Product(Box<Expression>, Box<Expression>),
}

/// The integer value of `e` on witness `w` at row `row`; the field value is this
/// integer modulo the field order.
pub open spec fn eval(e: Expression, w: Witness, row: int) -> int
    decreases e,
{
    match e {
        Expression::Constant(c) => c as int,
        Expression::PowerOfTwo(k) => pow2(k as nat) as int,
        Expression::Query(q) => w(q.column as int, row + q.rotation as int),
        Expression::Negated(a) => -eval(*a, w, row),
        Expression::Sum(a, b) => eval(*a, w, row) + eval(*b, w, row),
        Expression::Product(a, b) => eval(*a, w, row) * eval(*b, w, row),
    }
}

pub open spec fn e_const(c: u128) -> Expression {
    Expression::Constant(c)
}

pub open spec fn e_cell(c: Cell) -> Expression {
    Expression::Query(c)
}

pub open spec fn e_neg(a: Expression) -> Expression {
    Expression::Negated(Box::new(a))
}

pub open spec fn e_add(a: Expression, b: Expression) -> Expression {
    Expression::Sum(Box::new(a), Box::new(b))
}

pub open spec fn e_sub(a: Expression, b: Expression) -> Expression {
    Expression::Sum(Box::new(a), Box::new(e_neg(b)))
}

pub open spec fn e_mul(a: Expression, b: Expression) -> Expression {
    Expression::Product(Box::new(a), Box::new(b))
}

/// `1 - a`, the negation of a boolean expression.
pub open spec fn e_not(a: Expression) -> Expression {
    e_sub(e_const(1), a)
}

/// `limbs[0] + limbs[1] * 2^bits + limbs[2] * 2^(2 bits) + ...`, built limb by
/// limb from the first (`from_limbs::expr`).
pub open spec fn e_from_limbs(limbs: Seq<Expression>, bits: nat) -> Expression
    decreases limbs.len(),
{
    if limbs.len() == 0 {
        e_const(0)
    } else {
        e_add(
            e_from_limbs(limbs.drop_last(), bits),
            e_mul(limbs.last(), Expression::PowerOfTwo((bits * (limbs.len() - 1)) as u32)),
        )
    }
}

/// `vals[0] + vals[1] * 2^bits + vals[2] * 2^(2 bits) + ...`
pub open spec fn weighted_sum(vals: Seq<int>, bits: nat) -> int
    decreases vals.len(),
{
    if vals.len() == 0 {
        0
    } else {
        weighted_sum(vals.drop_last(), bits) + vals.last() * pow2(bits * (vals.len() - 1) as nat)
    }
}

/// The random linear combination `vals[0] + r * (vals[1] + r * (vals[2] + ...))`
/// (`rlc::expr`), built from the last value; `0` for no values.
pub open spec fn e_rlc(vals: Seq<Expression>, r: Expression) -> Expression
    decreases vals.len(),
{
    if vals.len() == 0 {
        e_const(0)
    } else if vals.len() == 1 {
        vals[0]
    } else {
        e_add(e_mul(e_rlc(vals.drop_first(), r), r), vals[0])
    }
}

/// The integer value of a random linear combination.
pub open spec fn rlc_value(vals: Seq<int>, r: int) -> int
    decreases vals.len(),
{
    if vals.len() == 0 { 0 } else { vals[0] + r * rlc_value(vals.drop_first(), r) }
}

/// A random linear combination evaluates to the combination of the values.
pub proof fn lemma_eval_rlc(vals: Seq<Expression>, r: Expression, w: Witness, row: int)
    ensures
        eval(e_rlc(vals, r), w, row) == rlc_value(evals(vals, w, row), eval(r, w, row)),
    decreases vals.len(),
{
    let ev = evals(vals, w, row);
    let x = eval(r, w, row);
    if vals.len() == 1 {
        assert(ev.drop_first().len() == 0);
        assert(rlc_value(ev.drop_first(), x) == 0);
        assert(ev[0] + x * 0 == ev[0]) by (nonlinear_arith);
        assert(ev[0] == eval(vals[0], w, row));
    } else if vals.len() > 1 {
        lemma_eval_rlc(vals.drop_first(), r, w, row);
        assert(evals(vals.drop_first(), w, row) =~= ev.drop_first());
        let t = rlc_value(ev.drop_first(), x);
        assert(t * x == x * t) by (nonlinear_arith);
        reveal_with_fuel(eval, 3);
        assert(eval(e_rlc(vals, r), w, row) == eval(e_rlc(vals.drop_first(), r), w, row) * x + eval(vals[0], w, row));
        assert(ev[0] == eval(vals[0], w, row));
    }
}

/// The values of a sequence of expressions.
pub open spec fn evals(s: Seq<Expression>, w: Witness, row: int) -> Seq<int> {
    s.map_values(|e: Expression| eval(e, w, row))
}

/// The expressions that read a sequence of cells.
pub open spec fn cell_exprs(cells: Seq<Cell>) -> Seq<Expression> {
    cells.map_values(|c: Cell| e_cell(c))
}

/// A composed limb expression evaluates to the weighted sum of its limbs.
pub proof fn lemma_eval_from_limbs(limbs: Seq<Expression>, bits: nat, w: Witness, row: int)
    requires
        bits * limbs.len() <= u32::MAX,
    ensures
        eval(e_from_limbs(limbs, bits), w, row) == weighted_sum(evals(limbs, w, row), bits),
    decreases limbs.len(),
{
    if limbs.len() > 0 {
        let n = limbs.len();
        assert(bits * (n - 1) <= bits * n) by (nonlinear_arith)
            requires n >= 1;
        lemma_eval_from_limbs(limbs.drop_last(), bits, w, row);
        assert(evals(limbs, w, row).drop_last() =~= evals(limbs.drop_last(), w, row));
        assert(((bits * (n - 1)) as u32) as nat == bits * (n - 1) as nat);
        assert(evals(limbs, w, row).last() == eval(limbs.last(), w, row));
        let k = (bits * (n - 1)) as u32;
        reveal_with_fuel(eval, 3);
        assert(eval(e_from_limbs(limbs, bits), w, row) == eval(e_from_limbs(limbs.drop_last(), bits), w, row) + eval(limbs.last(), w, row) * pow2(k as nat));
        assert(evals(limbs, w, row).len() == n);
        assert(weighted_sum(evals(limbs, w, row), bits) == weighted_sum(evals(limbs.drop_last(), w, row), bits) + eval(limbs.last(), w, row) * pow2(bits * (n - 1) as nat));
    } else {
        assert(evals(limbs, w, row).len() == 0);
    }
}

/// `1 * a * b` (`and::expr` of two inputs).
pub open spec fn e_and2(a: Expression, b: Expression) -> Expression {
    e_mul(e_mul(e_const(1), a), b)
}

/// `1 - (1 - a) * (1 - b)` (`or::expr` of two inputs).
pub open spec fn e_or2(a: Expression, b: Expression) -> Expression {
    e_not(e_and2(e_not(a), e_not(b)))
}

impl Cell {
    /// The same cell, `offset` rows further.
    pub fn at_offset(&self, offset: i32) -> (r: Cell)
        requires
            i32::MIN <= self.rotation + offset <= i32::MAX,
        ensures
            r.column == self.column,
            r.rotation == self.rotation + offset,
    {
        Cell { column: self.column, rotation: self.rotation + offset }
    }

    /// The expression that reads this cell.
    pub fn expr(&self) -> (r: Expression)
        ensures
            r == e_cell(*self),
    {
        Expression::Query(*self)
    }
}

/// The expressions reading each of `cells`.
pub fn cell_exprs_of(cells: &[Cell]) -> (r: Vec<Expression>)
    ensures
        r@ == cell_exprs(cells@),
{
    let mut v: Vec<Expression> = Vec::new();
    let mut i: usize = 0;
    while i < cells.len()
        invariant
            i <= cells.len(),
            v@ == cell_exprs(cells@.take(i as int)),
        decreases cells.len() - i,
    {
        v.push(cells[i].expr());
        proof {
            assert(cells@.take(i as int + 1) =~= cells@.take(i as int).push(cells@[i as int]));
        }
        i = i + 1;
    }
    proof {
        assert(cells@.take(cells.len() as int) =~= cells@);
    }
    v
}

impl Expression {
    /// A structural copy of the expression.
    pub fn copy(&self) -> (r: Expression)
        ensures
            r == *self,
        decreases self,
    {
        match self {
            Expression::Constant(c) => Expression::Constant(*c),
            Expression::PowerOfTwo(k) => Expression::PowerOfTwo(*k),
            Expression::Query(q) => Expression::Query(*q),
            Expression::Negated(a) => Expression::Negated(Box::new((**a).copy())),
            Expression::Sum(a, b) => Expression::Sum(Box::new((**a).copy()), Box::new((**b).copy())),
            Expression::Product(a, b) => Expression::Product(
                Box::new((**a).copy()),
                Box::new((**b).copy()),
            ),
        }
    }

    pub fn constant(c: u128) -> (r: Expression)
        ensures
            r == e_const(c),
    {
        Expression::Constant(c)
    }

    pub fn pow_of_two(k: u32) -> (r: Expression)
        ensures
            r == Expression::PowerOfTwo(k),
    {
        Expression::PowerOfTwo(k)
    }

    pub fn neg(a: Expression) -> (r: Expression)
        ensures
            r == e_neg(a),
    {
        Expression::Negated(Box::new(a))
    }

    pub fn add(a: Expression, b: Expression) -> (r: Expression)
        ensures
            r == e_add(a, b),
    {
        Expression::Sum(Box::new(a), Box::new(b))
    }

    pub fn sub(a: Expression, b: Expression) -> (r: Expression)
        ensures
            r == e_sub(a, b),
    {
        Expression::Sum(Box::new(a), Box::new(Expression::Negated(Box::new(b))))
    }

    pub fn mul(a: Expression, b: Expression) -> (r: Expression)
        ensures
            r == e_mul(a, b),
    {
        Expression::Product(Box::new(a), Box::new(b))
    }

    /// `limbs[0] + limbs[1] * 2^bits + ...` (`from_limbs::expr`).
    pub fn from_limbs(limbs: &Vec<Expression>, bits: u32) -> (r: Expression)
        requires
            bits * limbs.len() <= u32::MAX,
        ensures
            r == e_from_limbs(limbs@, bits as nat),
    {
        let mut acc = Expression::constant(0);
        let mut i: usize = 0;
        while i < limbs.len()
            invariant
                i <= limbs.len(),
                bits * limbs.len() <= u32::MAX,
                acc == e_from_limbs(limbs@.take(i as int), bits as nat),
            decreases limbs.len() - i,
        {
            proof {
                assert(bits * i <= bits * limbs.len()) by (nonlinear_arith)
                    requires i <= limbs.len();
            }
            let k: u32 = if bits == 0 { 0 } else {
                proof {
                    assert(i <= bits * i) by (nonlinear_arith)
                        requires bits >= 1;
                }
                bits * (i as u32)
            };
            let term = Expression::mul(limbs[i].copy(), Expression::pow_of_two(k));
            acc = Expression::add(acc, term);
            proof {
                let t = limbs@.take(i as int + 1);
                assert(t.drop_last() =~= limbs@.take(i as int));
                assert(t.last() == limbs@[i as int]);
                assert(k as nat == bits * i);
                assert(((bits * (t.len() - 1)) as u32) == k);
            }
            i = i + 1;
        }
        proof {
            assert(limbs@.take(limbs.len() as int) =~= limbs@);
        }
        acc
    }

    /// The little-endian byte composition of `cells` (`from_bytes::expr`).
    pub fn from_bytes(cells: &[Cell]) -> (r: Expression)
        requires
            8 * cells.len() <= u32::MAX,
        ensures
            r == e_from_limbs(cell_exprs(cells@), 8),
    {
        let v = cell_exprs_of(cells);
        Expression::from_limbs(&v, 8)
    }

    /// The sum of `terms`, starting from `0`.
    /// The random linear combination of `values` by `randomness`
    /// (`rlc_with_randomness`).
    pub fn rlc(values: &Vec<Expression>, randomness: &Expression) -> (r: Expression)
        ensures
            r == e_rlc(values@, *randomness),
    {
        let n = values.len();
        if n == 0 {
            return Expression::constant(0);
        }
        let mut acc = values[n - 1].copy();
        let mut i: usize = n - 1;
        proof {
            assert(values@.skip(n - 1).len() == 1);
            assert(values@.skip(n - 1)[0] == values@[n - 1]);
        }
        while i > 0
            invariant
                n == values@.len(),
                0 <= i < n,
                acc == e_rlc(values@.skip(i as int), *randomness),
            decreases i,
        {
            acc = Expression::add(Expression::mul(acc, randomness.copy()), values[i - 1].copy());
            proof {
                let t = values@.skip(i - 1);
                assert(t.drop_first() =~= values@.skip(i as int));
                assert(t[0] == values@[i - 1]);
            }
            i = i - 1;
        }
        proof {
            assert(values@.skip(0) =~= values@);
        }
        acc
    }

    pub fn sum(terms: &Vec<Expression>) -> (r: Expression)
        ensures
            r == e_from_limbs(terms@, 0),
    {
        Expression::from_limbs(terms, 0)
    }

    /// The conjunction of two boolean expressions (`and::expr`).
    pub fn and2(a: Expression, b: Expression) -> (r: Expression)
        ensures
            r == e_and2(a, b),
    {
        Expression::mul(Expression::mul(Expression::constant(1), a), b)
    }

    /// The disjunction of two boolean expressions (`or::expr`).
    pub fn or2(a: Expression, b: Expression) -> (r: Expression)
        ensures
            r == e_or2(a, b),
    {
        Expression::not(Expression::and2(Expression::not(a), Expression::not(b)))
    }

    /// `1 - a` (`gadgets::util::not::expr`).
    pub fn not(a: Expression) -> (r: Expression)
        ensures
            r == e_not(a),
    {
        Expression::sub(Expression::constant(1), a)
    }
}

/// Limbs below `2^bits` give a weighted sum below `2^(bits * n)`.
pub proof fn lemma_weighted_sum_bound(vals: Seq<int>, bits: nat)
    requires
        forall|i: int| 0 <= i < vals.len() ==> 0 <= #[trigger] vals[i] < pow2(bits),
    ensures
        0 <= weighted_sum(vals, bits) < pow2(bits * vals.len()),
    decreases vals.len(),
{
    let n = vals.len();
    if n == 0 {
        lemma2_to64();
        assert(bits * 0 == 0);
    } else {
        let t = vals.drop_last();
        lemma_weighted_sum_bound(t, bits);
        let m = (bits * (n - 1)) as nat;
        assert(bits * (n - 1) >= 0) by (nonlinear_arith) requires n >= 1;
        lemma_pow2_adds(m, bits);
        assert(m + bits == bits * n) by (nonlinear_arith) requires m == bits * (n - 1), n >= 1;
        let ws = weighted_sum(t, bits);
        let l = vals.last();
        let pm = pow2(m) as int;
        let pb = pow2(bits) as int;
        assert(ws + l * pm < pm * pb) by (nonlinear_arith)
            requires 0 <= ws < pm, 0 <= l < pb, pm > 0;
        assert(0 <= l * pm) by (nonlinear_arith) requires 0 <= l, pm > 0;
        lemma_pow2_pos(m);
    }
}

/// Two sequences of limbs below `2^bits` with the same weighted sum are equal:
/// a value has one little-endian decomposition.
pub proof fn lemma_weighted_sum_unique(a: Seq<int>, c: Seq<int>, bits: nat)
    requires
        a.len() == c.len(),
        forall|i: int| 0 <= i < a.len() ==> 0 <= #[trigger] a[i] < pow2(bits),
        forall|i: int| 0 <= i < c.len() ==> 0 <= #[trigger] c[i] < pow2(bits),
        weighted_sum(a, bits) == weighted_sum(c, bits),
    ensures
        a == c,
    decreases a.len(),
{
    let n = a.len();
    if n > 0 {
        let m = (bits * (n - 1)) as nat;
        assert(bits * (n - 1) >= 0) by (nonlinear_arith) requires n >= 1;
        let ta = a.drop_last();
        let tc = c.drop_last();
        lemma_weighted_sum_bound(ta, bits);
        lemma_weighted_sum_bound(tc, bits);
        lemma_pow2_pos(m);
        let x = weighted_sum(a, bits);
        assert(x == a.last() * pow2(m) + weighted_sum(ta, bits));
        assert(x == c.last() * pow2(m) + weighted_sum(tc, bits));
        vstd::arithmetic::div_mod::lemma_fundamental_div_mod_converse(x, pow2(m) as int, a.last(), weighted_sum(ta, bits));
        vstd::arithmetic::div_mod::lemma_fundamental_div_mod_converse(x, pow2(m) as int, c.last(), weighted_sum(tc, bits));
        lemma_weighted_sum_unique(ta, tc, bits);
        assert(a =~= ta.push(a.last()));
        assert(c =~= tc.push(c.last()));
    } else {
        assert(a =~= c);
    }
}

} // verus!
