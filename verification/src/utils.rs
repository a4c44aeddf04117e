use vstd::prelude::*;
use vstd::arithmetic::div_mod::*;
use vstd::arithmetic::power2::*;
use crate::bytes::le_value;
use crate::expr::{Cell, Expression, Witness, eval};
use crate::field::{Fe, fe_add, fe_mul, fe_sub, field_witness, lemma_modulus_bounds, modulus};

verus! {

/// The witness that a table of advice columns holds: column `c` at row `r`,
/// and zero outside the table.
pub open spec fn table_witness(table: Seq<Vec<Fe>>) -> Witness {
    |c: int, r: int| if 0 <= c < table.len() && 0 <= r < table[c]@.len() { table[c]@[r].val() as int } else { 0 }
}

/// A table of field elements is a witness of field elements.
pub proof fn lemma_table_witness_in_field(table: Seq<Vec<Fe>>)
    ensures
        field_witness(table_witness(table)),
{
    lemma_modulus_bounds();
    assert forall|c: int, r: int| 0 <= #[trigger] table_witness(table)(c, r) < modulus() by {
        if 0 <= c < table.len() && 0 <= r < table[c]@.len() {
            crate::field::lemma_val_bound(table[c]@[r]);
        }
    }
}

/// Every cell that `e` reads at `row` lies in the table, and every power of
/// two is below the field's size.
pub open spec fn queries_in(e: Expression, table: Seq<Vec<Fe>>, row: int) -> bool
    decreases e,
{
    match e {
        Expression::Constant(_) => true,
        Expression::PowerOfTwo(k) => k < 254,
        Expression::Query(q) => 0 <= q.column < table.len() && 0 <= row + q.rotation < table[q.column as int]@.len(),
        Expression::Negated(a) => queries_in(*a, table, row),
        Expression::Sum(a, b) => queries_in(*a, table, row) && queries_in(*b, table, row),
        Expression::Product(a, b) => queries_in(*a, table, row) && queries_in(*b, table, row),
    }
}

/// `-x` in the field is `p - (x mod p)`, modulo `p`.
proof fn lemma_neg_mod(x: int)
    ensures
        (modulus() - x % (modulus() as int)) % (modulus() as int) == (-x) % (modulus() as int),
{
    let p = modulus() as int;
    lemma_modulus_bounds();
    lemma_fundamental_div_mod(x, p);
    let q = x / p;
    let m = x % p;
    assert(-x == (-q - 1) * p + (p - m)) by (nonlinear_arith)
        requires x == p * q + m;
    lemma_mod_multiples_vanish(-q - 1, p - m, p);
}

/// The value of `expr` on the table at row `offset` in the field; `None` when
/// it reads a cell outside the table (`evaluate_expression`).
pub fn evaluate_expression(expr: &Expression, table: &Vec<Vec<Fe>>, offset: usize) -> (r: Option<Fe>)
    ensures
        r is Some <==> queries_in(*expr, table@, offset as int),
        r matches Some(v) ==> v.val() == eval(*expr, table_witness(table@), offset as int) % (modulus() as int),
    decreases expr,
{
    proof {
        lemma_modulus_bounds();
    }
    let p = Ghost(modulus() as int);
    match expr {
        Expression::Constant(c) => {
            proof {
                crate::field::lemma_u128_below_pow2_128(*c);
                lemma_pow2_strictly_increases(128, 254);
                lemma_small_mod(*c as nat, modulus());
            }
            Some(Fe::from_u128(*c))
        },
        Expression::PowerOfTwo(k) => {
            if *k < 254 {
                proof {
                    lemma_pow2_strictly_increases(*k as nat, 254);
                    lemma_small_mod(pow2(*k as nat), modulus());
                }
                Some(Fe::pow_of_two(*k))
            } else {
                None
            }
        },
        Expression::Query(q) => {
            let row: i128 = offset as i128 + q.rotation as i128;
            if q.column < table.len() && row >= 0 && row < table[q.column].len() as i128 {
                let v = table[q.column][row as usize];
                proof {
                    crate::field::lemma_val_bound(v);
                    lemma_small_mod(v.val(), modulus());
                }
                Some(v)
            } else {
                None
            }
        },
        Expression::Negated(a) => {
            match evaluate_expression(a, table, offset) {
                Some(x) => {
                    let r = fe_sub(&Fe::zero(), &x);
                    proof {
                        lemma_neg_mod(eval(**a, table_witness(table@), offset as int));
                    }
                    Some(r)
                },
                None => None,
            }
        },
        Expression::Sum(a, b) => {
            let x = evaluate_expression(a, table, offset);
            let y = evaluate_expression(b, table, offset);
            match (x, y) {
                (Some(x), Some(y)) => {
                    proof {
                        lemma_add_mod_noop(eval(**a, table_witness(table@), offset as int),
                            eval(**b, table_witness(table@), offset as int), p@);
                    }
                    Some(fe_add(&x, &y))
                },
                _ => None,
            }
        },
        Expression::Product(a, b) => {
            let x = evaluate_expression(a, table, offset);
            let y = evaluate_expression(b, table, offset);
            match (x, y) {
                (Some(x), Some(y)) => {
                    proof {
                        lemma_mul_mod_noop(eval(**a, table_witness(table@), offset as int),
                            eval(**b, table_witness(table@), offset as int), p@);
                    }
                    Some(fe_mul(&x, &y))
                },
                _ => None,
            }
        },
    }
}

/// The field element whose little-endian bytes are `bytes`
/// (`from_bytes::value`).
pub fn value(bytes: &[u8]) -> (r: Fe)
    requires
        bytes@.len() <= 31,
    ensures
        r.val() == le_value(bytes@),
{
    let mut acc = Fe::zero();
    let mut i: usize = bytes.len();
    proof {
        lemma2_to64();
        assert(bytes@.skip(bytes@.len() as int).len() == 0);
    }
    while i > 0
        invariant
            i <= bytes@.len(),
            bytes@.len() <= 31,
            acc.val() == le_value(bytes@.skip(i as int)),
        decreases i,
    {
        let b = Fe::from_u64(bytes[i - 1] as u64);
        let shifted = fe_mul(&Fe::from_u64(256), &acc);
        let next = fe_add(&b, &shifted);
        proof {
            let t = bytes@.skip(i - 1);
            assert(t.drop_first() =~= bytes@.skip(i as int));
            assert(t[0] == bytes@[i - 1]);
            crate::bytes::lemma_le_value_bound(t);
            lemma_modulus_bounds();
            assert(t.len() <= 31);
            if 8 * t.len() < 248 {
                lemma_pow2_strictly_increases(8 * t.len(), 248);
            }
            lemma_pow2_strictly_increases(248, 254);
            let x = le_value(bytes@.skip(i as int));
            assert(256 * x <= le_value(t));
            lemma_small_mod((256 * x) as nat, modulus());
            lemma_small_mod(le_value(t), modulus());
        }
        acc = next;
        i = i - 1;
    }
    proof {
        assert(bytes@.skip(0) =~= bytes@);
    }
    acc
}

/// Turns a value that may be unknown and holds a result into a result that
/// holds a value that may be unknown (`transpose_val_ret`).
pub fn transpose_val_ret<T, E>(value: Option<Result<T, E>>) -> (r: Result<Option<T>, E>)
    ensures
        match value {
            None => r == Ok::<Option<T>, E>(None),
            Some(Ok(v)) => r == Ok::<Option<T>, E>(Some(v)),
            Some(Err(e)) => r == Err::<Option<T>, E>(e),
        },
{
    match value {
        None => Ok(None),
        Some(Ok(v)) => Ok(Some(v)),
        Some(Err(e)) => Err(e),
    }
}

/// An expression whose value a cell stores: `cell` holds `expr` at every
/// row, under a name and an identifier.
#[derive(Debug)]
pub struct StoredExpression {
    pub name: String,
    pub cell: Cell,
    pub expr: Expression,
    pub expr_id: String,
}

impl StoredExpression {
    /// The value of the expression on the table at row `offset`, and the
    /// cell to store it in; `None` when the expression reads outside the
    /// table.
    pub fn assign(&self, table: &Vec<Vec<Fe>>, offset: usize) -> (r: Option<(Cell, Fe)>)
        ensures
            r is Some <==> queries_in(self.expr, table@, offset as int),
            r matches Some(a) ==> a.0 == self.cell
                && a.1.val() == eval(self.expr, table_witness(table@), offset as int) % (modulus() as int),
    {
        match evaluate_expression(&self.expr, table, offset) {
            Some(v) => Some((self.cell, v)),
            None => None,
        }
    }
}

/// What `evaluate_expression` gives, the value of an expression in the
/// field, respects the operations: a negation, a sum or a product evaluates
/// to the negation, the sum or the product of the values of its parts, and a
/// constant to itself.
pub proof fn lemma_evaluation_homomorphic(a: Expression, b: Expression, c: u128, w: Witness, row: int)
    ensures
        eval(Expression::Constant(c), w, row) % (modulus() as int) == c as int % (modulus() as int),
        eval(Expression::Negated(Box::new(a)), w, row) % (modulus() as int)
            == (modulus() - eval(a, w, row) % (modulus() as int)) % (modulus() as int),
        eval(Expression::Sum(Box::new(a), Box::new(b)), w, row) % (modulus() as int)
            == (eval(a, w, row) % (modulus() as int) + eval(b, w, row) % (modulus() as int)) % (modulus() as int),
        eval(Expression::Product(Box::new(a), Box::new(b)), w, row) % (modulus() as int)
            == ((eval(a, w, row) % (modulus() as int)) * (eval(b, w, row) % (modulus() as int))) % (modulus() as int),
{
    let p = modulus() as int;
    lemma_modulus_bounds();
    lemma_neg_mod(eval(a, w, row));
    lemma_add_mod_noop(eval(a, w, row), eval(b, w, row), p);
    lemma_mul_mod_noop_general(eval(a, w, row), eval(b, w, row), p);
}

} // verus!
