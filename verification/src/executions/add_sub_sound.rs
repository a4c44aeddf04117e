use vstd::prelude::*;
use crate::builder::{RowScope, e_boolean, e_in_set, lemma_bit_set_cell, lemma_boolean_cell};
use crate::math_gadgets::add::bit_set;
use crate::executions::add_sub::{add_sub_overflow, is_int_width, add_sub_constraints, add_sub_core_constraints, add_sub_flag_checks, add_sub_widths,
    cell_at, cells_from, e_is_add, e_is_width, small_widths};
use crate::expr::{Cell, Expression, Witness, e_add, e_cell, e_const, e_mul, e_not, e_sub, eval};
use crate::field::{field_is_prime, field_witness, lemma_modulus_bounds, lemma_small_unit_cancel, modulus};
use crate::math_gadgets::add::{e_add_hi, e_add_lo, lemma_add_sound, lemma_small_int_mod_zero};
use crate::math_gadgets::is_zero::is_zero_checks;
use crate::math_gadgets::range_check::{e_bytes, e_in_range, lemma_overflow_flag, lemma_unit_factor};
use crate::opcode::Opcode;
use crate::step::StepState;
use crate::u256::{lemma_two_128, two_128, two_256};
use vstd::arithmetic::div_mod::{lemma_fundamental_div_mod, lemma_mod_multiples_vanish, lemma_small_mod};
use vstd::arithmetic::power2::{lemma2_to64, lemma_pow2_strictly_increases, pow2};

verus! {

/// The test of width `m` on the step's `aux0`, its value `aux0 - m`, and
/// the first check of the test.
pub open spec fn width_check(s: StepState, m: nat, inverse: Cell) -> Expression {
    e_mul(e_sub(e_cell(s.aux0), e_const(m as u128)), e_is_width(s, m, inverse))
}

/// The sum of the tests of the widths below 128 bits.
pub open spec fn e_small_width(s: StepState, c: int) -> Expression {
    e_add(e_add(e_add(e_is_width(s, 1, cell_at(c + 35)), e_is_width(s, 2, cell_at(c + 36))),
        e_is_width(s, 4, cell_at(c + 37))), e_is_width(s, 8, cell_at(c + 38)))
}

/// In a prime field, on a row of field elements where the constraints of
/// `AddSub` at the last row hold, the two carries and `overflow` are bits.
proof fn lemma_add_sub_bits(s: StepState, p: StepState, c: int, w: Witness, row: int)
    requires
        field_is_prime(),
        field_witness(w),
        forall|i: int| 0 <= i < add_sub_constraints(s, p, c).len() && add_sub_constraints(s, p, c)[i].scope == RowScope::Last
            ==> #[trigger] eval(add_sub_constraints(s, p, c)[i].poly, w, row) % (modulus() as int) == 0,
    ensures
        eval(e_cell(cell_at(c + 32)), w, row) == 0 || eval(e_cell(cell_at(c + 32)), w, row) == 1,
        eval(e_cell(cell_at(c + 33)), w, row) == 0 || eval(e_cell(cell_at(c + 33)), w, row) == 1,
        eval(e_cell(cell_at(c + 41)), w, row) == 0 || eval(e_cell(cell_at(c + 41)), w, row) == 1,
{
    let cs = add_sub_constraints(s, p, c);
    let core = add_sub_core_constraints(s, p, c);
    lemma_core_layout(s, p, c);
    lemma_checks_layout(s, c);
    assert(cs == core + add_sub_flag_checks(s, c));
    assert(cs[5] == core[5] && cs[6] == core[6] && cs[7] == core[7]);
    assert(eval(cs[5].poly, w, row) % (modulus() as int) == 0);
    assert(eval(cs[6].poly, w, row) % (modulus() as int) == 0);
    assert(eval(cs[7].poly, w, row) % (modulus() as int) == 0);
    lemma_bit_set_cell(cell_at(c + 32), w, row);
    lemma_bit_set_cell(cell_at(c + 33), w, row);
    lemma_boolean_cell(cell_at(c + 41), w, row);
}

/// Where each of them stands in `add_sub_constraints`: the constraints of
/// the sum and the difference, `out_hi == 0`, those of the range test of
/// width `small_widths()[k]`, and the first checks of the opcode test and
/// of the small width tests, all at the last row.
#[verifier::rlimit(100)]
proof fn lemma_add_sub_layout(s: StepState, p: StepState, c: int, k: int)
    requires
        0 <= k < 4,
    ensures
        ({
            let cs = add_sub_constraints(s, p, c);
            let n = small_widths()[k];
            let flag = e_is_width(s, n, cell_at(c + 35 + k));
            let out_lo = e_cell(s.stack_push_value.cells[0]);
            let lo_b = cells_from(c, 16);
            let inv = cell_at(c + 42 + k);
            let checks = is_zero_checks(e_sub(out_lo, e_bytes(lo_b.take(n as int))), inv);
            &&& cs.len() == 63
            &&& forall|i: int| 13 <= i <= 21 + 4 * k || i == 49 || i == 51 || i == 53 || i == 55 || i == 57
                ==> #[trigger] cs[i].scope == RowScope::Last
            &&& cs[17].poly == e_mul(e_small_width(s, c), e_cell(s.stack_push_value.cells[1]))
            &&& cs[18 + 4 * k].poly == e_mul(flag, e_sub(out_lo, e_bytes(lo_b)))
            &&& cs[19 + 4 * k].poly == e_mul(flag, checks[0].1)
            &&& cs[20 + 4 * k].poly == e_mul(flag, checks[1].1)
            &&& cs[21 + 4 * k].poly == e_mul(flag, e_sub(e_cell(cell_at(c + 41)),
                e_sub(e_const(1), e_in_range(out_lo, lo_b, n, inv))))
            &&& cs[49].poly == e_mul(e_sub(e_cell(s.opcode), e_const(Opcode::Add.spec_index() as u128)),
                e_is_add(s, cell_at(c + 34)))
            &&& cs[51].poly == width_check(s, 1, cell_at(c + 35))
            &&& cs[53].poly == width_check(s, 2, cell_at(c + 36))
            &&& cs[55].poly == width_check(s, 4, cell_at(c + 37))
            &&& cs[57].poly == width_check(s, 8, cell_at(c + 38))
        }),
{
    let core = add_sub_core_constraints(s, p, c);
    let wd = add_sub_widths(s, c);
    let fc = add_sub_flag_checks(s, c);
    lemma_widths_layout(s, c, k);
    lemma_checks_layout(s, c);
    lemma_core_layout(s, p, c);
    let cs = add_sub_constraints(s, p, c);
    assert(cs == core + fc);
    assert forall|i: int| 17 <= i < 49 implies #[trigger] cs[i] == wd[i - 17] by {
        assert(cs[i] == core[i]);
        assert(core.skip(17)[i - 17] == core[i]);
    }
    assert forall|i: int| 49 <= i < 63 implies #[trigger] cs[i] == fc[i - 49] by {}
    assert forall|i: int| 13 <= i < 17 implies #[trigger] cs[i] == core[i] by {}
}

/// The width tests' constraints, all at the last row.
#[verifier::rlimit(60)]
proof fn lemma_widths_layout(s: StepState, c: int, k: int)
    requires
        0 <= k < 4,
    ensures
        ({
            let wd = add_sub_widths(s, c);
            let n = small_widths()[k];
            let flag = e_is_width(s, n, cell_at(c + 35 + k));
            let out_lo = e_cell(s.stack_push_value.cells[0]);
            let lo_b = cells_from(c, 16);
            let inv = cell_at(c + 42 + k);
            let checks = is_zero_checks(e_sub(out_lo, e_bytes(lo_b.take(n as int))), inv);
            &&& wd.len() == 32
            &&& forall|i: int| 0 <= i < 32 ==> #[trigger] wd[i].scope == RowScope::Last
            &&& wd[0].poly == e_mul(e_small_width(s, c), e_cell(s.stack_push_value.cells[1]))
            &&& wd[1 + 4 * k].poly == e_mul(flag, e_sub(out_lo, e_bytes(lo_b)))
            &&& wd[2 + 4 * k].poly == e_mul(flag, checks[0].1)
            &&& wd[3 + 4 * k].poly == e_mul(flag, checks[1].1)
            &&& wd[4 + 4 * k].poly == e_mul(flag, e_sub(e_cell(cell_at(c + 41)),
                e_sub(e_const(1), e_in_range(out_lo, lo_b, n, inv))))
        }),
{
    let wd = add_sub_widths(s, c);
    assert(wd.len() == 32);
}

/// The checks of the opcode and width tests, all at the last row.
#[verifier::rlimit(60)]
proof fn lemma_checks_layout(s: StepState, c: int)
    ensures
        ({
            let fc = add_sub_flag_checks(s, c);
            &&& fc.len() == 14
            &&& forall|i: int| 0 <= i < 14 ==> #[trigger] fc[i].scope == RowScope::Last
            &&& fc[0].poly == e_mul(e_sub(e_cell(s.opcode), e_const(Opcode::Add.spec_index() as u128)),
                e_is_add(s, cell_at(c + 34)))
            &&& fc[2].poly == width_check(s, 1, cell_at(c + 35))
            &&& fc[4].poly == width_check(s, 2, cell_at(c + 36))
            &&& fc[6].poly == width_check(s, 4, cell_at(c + 37))
            &&& fc[8].poly == width_check(s, 8, cell_at(c + 38))
        }),
{
    let fc = add_sub_flag_checks(s, c);
    assert(fc.len() == 14);
}

/// The core constraints end with the width tests' ones; the sum's and the
/// difference's are at the last row.
#[verifier::rlimit(60)]
proof fn lemma_core_layout(s: StepState, p: StepState, c: int)
    ensures
        ({
            let core = add_sub_core_constraints(s, p, c);
            &&& core.len() == 49
            &&& core.skip(17) == add_sub_widths(s, c)
            &&& forall|i: int| 5 <= i < 8 || 13 <= i < 17 ==> #[trigger] core[i].scope == RowScope::Last
            &&& core[5].poly == e_in_set(e_cell(cell_at(c + 32)), bit_set())
            &&& core[6].poly == e_in_set(e_cell(cell_at(c + 33)), bit_set())
            &&& core[7].poly == e_boolean(e_cell(cell_at(c + 41)))
        }),
{
    let core = add_sub_core_constraints(s, p, c);
    let wd = add_sub_widths(s, c);
    assert(wd.len() == 32);
    assert(core.len() == 49);
    assert(core.skip(17) =~= wd);
}

/// Under the checks of the small width tests, when `aux0` is one of the
/// small widths, the sum of their tests is `1` in the field, so
/// `out_hi == 0` holds of a limb below the field order only when it is `0`.
proof fn lemma_add_sub_high_zero(s: StepState, c: int, k: int, w: Witness, row: int)
    requires
        0 <= k < 4,
        eval(e_cell(s.aux0), w, row) == small_widths()[k],
        eval(width_check(s, 1, cell_at(c + 35)), w, row) % (modulus() as int) == 0,
        eval(width_check(s, 2, cell_at(c + 36)), w, row) % (modulus() as int) == 0,
        eval(width_check(s, 4, cell_at(c + 37)), w, row) % (modulus() as int) == 0,
        eval(width_check(s, 8, cell_at(c + 38)), w, row) % (modulus() as int) == 0,
        eval(e_mul(e_small_width(s, c), e_cell(s.stack_push_value.cells[1])), w, row) % (modulus() as int) == 0,
        0 <= eval(e_cell(s.stack_push_value.cells[1]), w, row) < modulus(),
    ensures
        eval(e_cell(s.stack_push_value.cells[1]), w, row) == 0,
{
    let pp = modulus() as int;
    lemma_modulus_bounds();
    reveal_with_fuel(eval, 4);
    let n = small_widths()[k];
    let widths = small_widths();
    let z = |j: int| eval(e_is_width(s, widths[j], cell_at(c + 35 + j)), w, row);
    assert forall|j: int| 0 <= j < 4 implies (#[trigger] z(j)) % pp == (if j == k { 1int } else { 0int }) by {
        let v = e_sub(e_cell(s.aux0), e_const(widths[j] as u128));
        assert(eval(v, w, row) == n - widths[j]);
        assert(eval(width_check(s, widths[j], cell_at(c + 35 + j)), w, row) % pp == 0);
        if j == k {
            let iv = eval(e_cell(cell_at(c + 35 + j)), w, row);
            let ev = eval(v, w, row);
            assert(ev * iv == 0) by (nonlinear_arith) requires ev == 0;
            lemma_small_mod(1, pp as nat);
        } else {
            lemma_small_unit_cancel(n - widths[j], z(j));
        }
    }
    let sum = z(0) + z(1) + z(2) + z(3);
    assert(eval(e_small_width(s, c), w, row) == sum);
    let (q0, q1, q2, q3) = (z(0) / pp, z(1) / pp, z(2) / pp, z(3) / pp);
    lemma_fundamental_div_mod(z(0), pp);
    lemma_fundamental_div_mod(z(1), pp);
    lemma_fundamental_div_mod(z(2), pp);
    lemma_fundamental_div_mod(z(3), pp);
    assert(z(0) % pp + z(1) % pp + z(2) % pp + z(3) % pp == 1) by {
        assert(z(0) % pp == (if k == 0 { 1int } else { 0int }));
        assert(z(1) % pp == (if k == 1 { 1int } else { 0int }));
        assert(z(2) % pp == (if k == 2 { 1int } else { 0int }));
        assert(z(3) % pp == (if k == 3 { 1int } else { 0int }));
    }
    assert(sum == 1 + pp * (q0 + q1 + q2 + q3)) by (nonlinear_arith)
        requires
            z(0) == pp * q0 + z(0) % pp,
            z(1) == pp * q1 + z(1) % pp,
            z(2) == pp * q2 + z(2) % pp,
            z(3) == pp * q3 + z(3) % pp,
            z(0) % pp + z(1) % pp + z(2) % pp + z(3) % pp == 1,
            sum == z(0) + z(1) + z(2) + z(3);
    lemma_mod_multiples_vanish(q0 + q1 + q2 + q3, 1, pp);
    lemma_small_mod(1, pp as nat);
    let o_hi = eval(e_cell(s.stack_push_value.cells[1]), w, row);
    lemma_unit_factor(sum, o_hi);
    lemma_small_mod(o_hi as nat, pp as nat);
}

/// The opcode test and the carries of `AddSub`: for `Add` the sum's
/// constraints give `o = (a + b) mod 2^256`, for `Sub` the difference's give
/// `a = (o + b) mod 2^256`, on limbs below `2^128` and carries that are bits.
proof fn lemma_add_sub_arith(s: StepState, p: StepState, c: int, w: Witness, row: int)
    requires
        eval(e_cell(s.opcode), w, row) == Opcode::Add.spec_index()
            || eval(e_cell(s.opcode), w, row) == Opcode::Sub.spec_index(),
        eval(e_mul(e_sub(e_cell(s.opcode), e_const(Opcode::Add.spec_index() as u128)),
            e_is_add(s, cell_at(c + 34))), w, row) % (modulus() as int) == 0,
        forall|i: int| 13 <= i < 17 ==> #[trigger] eval(add_sub_core_constraints(s, p, c)[i].poly, w, row)
            % (modulus() as int) == 0,
        0 <= eval(e_cell(s.stack_pop_value.cells[0]), w, row) < two_128(),
        0 <= eval(e_cell(s.stack_pop_value.cells[1]), w, row) < two_128(),
        0 <= eval(e_cell(p.stack_pop_value.cells[0]), w, row) < two_128(),
        0 <= eval(e_cell(p.stack_pop_value.cells[1]), w, row) < two_128(),
        0 <= eval(e_cell(s.stack_push_value.cells[0]), w, row) < two_128(),
        0 <= eval(e_cell(s.stack_push_value.cells[1]), w, row) < two_128(),
        eval(e_cell(cell_at(c + 32)), w, row) == 0 || eval(e_cell(cell_at(c + 32)), w, row) == 1,
        eval(e_cell(cell_at(c + 33)), w, row) == 0 || eval(e_cell(cell_at(c + 33)), w, row) == 1,
    ensures
        ({
            let kk = two_128() as int;
            let a = eval(e_cell(s.stack_pop_value.cells[0]), w, row) + eval(e_cell(s.stack_pop_value.cells[1]), w, row) * kk;
            let b = eval(e_cell(p.stack_pop_value.cells[0]), w, row) + eval(e_cell(p.stack_pop_value.cells[1]), w, row) * kk;
            let o = eval(e_cell(s.stack_push_value.cells[0]), w, row) + eval(e_cell(s.stack_push_value.cells[1]), w, row) * kk;
            let ch = eval(e_cell(cell_at(c + 33)), w, row);
            &&& eval(e_cell(s.opcode), w, row) == Opcode::Add.spec_index() ==> o == (a + b) % (two_256() as int)
            &&& eval(e_cell(s.opcode), w, row) == Opcode::Sub.spec_index() ==> a == (o + b) % (two_256() as int)
            &&& eval(e_cell(s.opcode), w, row) == Opcode::Add.spec_index()
                ==> ch == (if a + b >= two_256() { 1int } else { 0int })
            &&& eval(e_cell(s.opcode), w, row) == Opcode::Sub.spec_index()
                ==> ch == (if o + b >= two_256() { 1int } else { 0int })
        }),
{
    let pp = modulus() as int;
    lemma_modulus_bounds();
    reveal_with_fuel(eval, 4);
    let core = add_sub_core_constraints(s, p, c);
    let lhs_lo = e_cell(s.stack_pop_value.cells[0]);
    let lhs_hi = e_cell(s.stack_pop_value.cells[1]);
    let rhs_lo = e_cell(p.stack_pop_value.cells[0]);
    let rhs_hi = e_cell(p.stack_pop_value.cells[1]);
    let out_lo = e_cell(s.stack_push_value.cells[0]);
    let out_hi = e_cell(s.stack_push_value.cells[1]);
    let za = eval(e_is_add(s, cell_at(c + 34)), w, row);
    let vd = e_sub(e_cell(s.opcode), e_const(Opcode::Add.spec_index() as u128));
    assert(eval(core[13].poly, w, row) % pp == 0 && eval(core[14].poly, w, row) % pp == 0);
    assert(eval(core[15].poly, w, row) % pp == 0 && eval(core[16].poly, w, row) % pp == 0);
    if eval(e_cell(s.opcode), w, row) == Opcode::Add.spec_index() {
        let iv = eval(e_cell(cell_at(c + 34)), w, row);
        assert(eval(vd, w, row) == 0);
        assert(eval(vd, w, row) * iv == 0);
        assert(za == 1);
        lemma_unit_factor(za, eval(e_add_lo(lhs_lo, rhs_lo, out_lo, cell_at(c + 32)), w, row));
        lemma_unit_factor(za, eval(e_add_hi(lhs_hi, rhs_hi, out_hi, cell_at(c + 32), cell_at(c + 33)), w, row));
        lemma_add_sound(lhs_lo, lhs_hi, rhs_lo, rhs_hi, out_lo, out_hi, cell_at(c + 32), cell_at(c + 33), w, row);
    } else {
        assert(eval(vd, w, row) == 1);
        let ev = eval(vd, w, row);
        assert(eval(e_mul(vd, e_is_add(s, cell_at(c + 34))), w, row) == ev * za);
        assert(ev * za == za) by (nonlinear_arith) requires ev == 1;
        assert(za % pp == 0);
        lemma_fundamental_div_mod(za, pp);
        lemma_mod_multiples_vanish(-(za / pp), 1, pp);
        lemma_small_mod(1, pp as nat);
        assert(eval(e_not(e_is_add(s, cell_at(c + 34))), w, row) == 1 - za);
        assert(1 - za == 1 + pp * (-(za / pp)));
        assert((1 - za) % pp == 1);
        lemma_unit_factor(1 - za, eval(e_add_lo(out_lo, rhs_lo, lhs_lo, cell_at(c + 32)), w, row));
        lemma_unit_factor(1 - za, eval(e_add_hi(out_hi, rhs_hi, lhs_hi, cell_at(c + 32), cell_at(c + 33)), w, row));
        lemma_add_sound(out_lo, out_hi, rhs_lo, rhs_hi, lhs_lo, lhs_hi, cell_at(c + 32), cell_at(c + 33), w, row);
    }
}

/// What `AddSub` proves for a width below 128 bits: at the last row of a
/// step whose opcode is `Add` or `Sub` and whose width `aux0` is
/// `small_widths()[k]` bytes, where every constraint of `AddSub` at the last
/// row holds in a prime field on a row of field elements, the six limbs are
/// below `2^128` and the bytes of the low limb of the result are bytes:
/// the result fits in its low limb, it is `lhs + rhs` (for `Sub`: `lhs - rhs`)
/// modulo `2^256`, and `overflow` is `0` exactly when it fits the width.
/// When both operands fit the width, `Add` gives `lhs + rhs`, with
/// `overflow` set exactly when that does not fit, and `Sub` is satisfiable
/// only for `rhs <= lhs`, gives `lhs - rhs` and never overflows.
#[verifier::rlimit(100)]
pub proof fn lemma_add_sub_sound(s: StepState, p: StepState, c: int, k: int, w: Witness, row: int)
    requires
        0 <= k < 4,
        eval(e_cell(s.opcode), w, row) == Opcode::Add.spec_index()
            || eval(e_cell(s.opcode), w, row) == Opcode::Sub.spec_index(),
        eval(e_cell(s.aux0), w, row) == small_widths()[k],
        forall|i: int| 0 <= i < add_sub_constraints(s, p, c).len() && add_sub_constraints(s, p, c)[i].scope == RowScope::Last
            ==> #[trigger] eval(add_sub_constraints(s, p, c)[i].poly, w, row) % (modulus() as int) == 0,
        0 <= eval(e_cell(s.stack_pop_value.cells[0]), w, row) < two_128(),
        0 <= eval(e_cell(s.stack_pop_value.cells[1]), w, row) < two_128(),
        0 <= eval(e_cell(p.stack_pop_value.cells[0]), w, row) < two_128(),
        0 <= eval(e_cell(p.stack_pop_value.cells[1]), w, row) < two_128(),
        0 <= eval(e_cell(s.stack_push_value.cells[0]), w, row) < two_128(),
        0 <= eval(e_cell(s.stack_push_value.cells[1]), w, row) < two_128(),
        forall|i: int| 0 <= i < 16 ==> 0 <= #[trigger] eval(e_cell(cells_from(c, 16)[i]), w, row) < 256,
        field_is_prime(),
        field_witness(w),
    ensures
        ({
            let kk = two_128() as int;
            let a = eval(e_cell(s.stack_pop_value.cells[0]), w, row) + eval(e_cell(s.stack_pop_value.cells[1]), w, row) * kk;
            let b = eval(e_cell(p.stack_pop_value.cells[0]), w, row) + eval(e_cell(p.stack_pop_value.cells[1]), w, row) * kk;
            let o = eval(e_cell(s.stack_push_value.cells[0]), w, row);
            let ov = eval(e_cell(cell_at(c + 41)), w, row);
            let is_add = eval(e_cell(s.opcode), w, row) == Opcode::Add.spec_index();
            let bound = pow2(8 * small_widths()[k]);
            &&& eval(e_cell(s.stack_push_value.cells[1]), w, row) == 0
            &&& is_add ==> o == (a + b) % (two_256() as int)
            &&& !is_add ==> (o + b) % (two_256() as int) == a
            &&& (ov == 0 <==> o < bound)
            &&& (a < bound && b < bound && is_add) ==> (o == a + b && (ov == 0 <==> a + b < bound))
            &&& (a < bound && b < bound && !is_add) ==> (b <= a && o == a - b && ov == 0)
        }),
{
    lemma_add_sub_bits(s, p, c, w, row);
    let pp = modulus() as int;
    lemma_modulus_bounds();
    lemma_two_128();
    lemma_pow2_strictly_increases(128, 254);
    let cs = add_sub_constraints(s, p, c);
    let n = small_widths()[k];
    lemma_add_sub_layout(s, p, c, k);
    assert(eval(cs[17].poly, w, row) % pp == 0);
    assert(eval(cs[51].poly, w, row) % pp == 0);
    assert(eval(cs[53].poly, w, row) % pp == 0);
    assert(eval(cs[55].poly, w, row) % pp == 0);
    assert(eval(cs[57].poly, w, row) % pp == 0);
    lemma_add_sub_high_zero(s, c, k, w, row);
    assert(eval(cs[49].poly, w, row) % pp == 0);
    assert forall|i: int| 13 <= i < 17 implies #[trigger] eval(add_sub_core_constraints(s, p, c)[i].poly, w, row)
        % pp == 0 by {
        assert(cs[i] == add_sub_core_constraints(s, p, c)[i]);
        assert(eval(cs[i].poly, w, row) % pp == 0);
    }
    lemma_add_sub_arith(s, p, c, w, row);
    // the overflow flag
    let flag = e_is_width(s, n, cell_at(c + 35 + k));
    assert(eval(flag, w, row) == 1) by {
        reveal_with_fuel(eval, 4);
        let iv = eval(e_cell(cell_at(c + 35 + k)), w, row);
        assert(eval(e_sub(e_cell(s.aux0), e_const(n as u128)), w, row) == 0);
        assert(eval(e_sub(e_cell(s.aux0), e_const(n as u128)), w, row) * iv == 0);
    }
    lemma_small_mod(1, pp as nat);
    let out_lo = e_cell(s.stack_push_value.cells[0]);
    let lo_b = cells_from(c, 16);
    let inv = cell_at(c + 42 + k);
    let checks = is_zero_checks(e_sub(out_lo, e_bytes(lo_b.take(n as int))), inv);
    assert(eval(cs[18 + 4 * k].poly, w, row) % pp == 0);
    assert(eval(cs[19 + 4 * k].poly, w, row) % pp == 0);
    assert(eval(cs[20 + 4 * k].poly, w, row) % pp == 0);
    assert(eval(cs[21 + 4 * k].poly, w, row) % pp == 0);
    assert forall|j: int| 0 <= j < 2 implies #[trigger] eval(e_mul(flag, checks[j].1), w, row) % pp == 0 by {
        if j == 0 { assert(eval(cs[19 + 4 * k].poly, w, row) % pp == 0); }
        else { assert(eval(cs[20 + 4 * k].poly, w, row) % pp == 0); }
    }
    lemma_overflow_flag(flag, cell_at(c + 41), out_lo, lo_b, n, inv, w, row);
    let o = eval(out_lo, w, row);
    let bv = eval(e_bytes(lo_b), w, row);
    assert(eval(e_sub(out_lo, e_bytes(lo_b)), w, row) == o - bv) by { reveal_with_fuel(eval, 3); }
    lemma_small_int_mod_zero(o - bv, pp);
    // operands that fit the width
    let kk = two_128() as int;
    let a = eval(e_cell(s.stack_pop_value.cells[0]), w, row) + eval(e_cell(s.stack_pop_value.cells[1]), w, row) * kk;
    let b = eval(e_cell(p.stack_pop_value.cells[0]), w, row) + eval(e_cell(p.stack_pop_value.cells[1]), w, row) * kk;
    let o_hi = eval(e_cell(s.stack_push_value.cells[1]), w, row);
    assert(o + o_hi * kk == o);
    let bound = pow2(8 * n);
    if a < bound && b < bound {
        assert(8 * n <= 64);
        lemma_pow2_strictly_increases(64, 128);
        if 8 * n < 64 { lemma_pow2_strictly_increases(8 * n, 64); }
        assert(kk * kk >= kk) by (nonlinear_arith) requires kk > 1;
        assert(a >= 0 && b >= 0) by (nonlinear_arith)
            requires
                a == eval(e_cell(s.stack_pop_value.cells[0]), w, row) + eval(e_cell(s.stack_pop_value.cells[1]), w, row) * kk,
                b == eval(e_cell(p.stack_pop_value.cells[0]), w, row) + eval(e_cell(p.stack_pop_value.cells[1]), w, row) * kk,
                eval(e_cell(s.stack_pop_value.cells[0]), w, row) >= 0, eval(e_cell(s.stack_pop_value.cells[1]), w, row) >= 0,
                eval(e_cell(p.stack_pop_value.cells[0]), w, row) >= 0, eval(e_cell(p.stack_pop_value.cells[1]), w, row) >= 0,
                kk > 0;
        if eval(e_cell(s.opcode), w, row) == Opcode::Add.spec_index() {
            lemma_small_mod((a + b) as nat, two_256());
        } else {
            lemma_small_mod((o + b) as nat, two_256());
        }
    }
}

/// The constraints that tie `overflow` for the two wide widths, at the last
/// row: to the result's high limb for 16 bytes, to the high carry for 32.
#[verifier::rlimit(60)]
proof fn lemma_wide_layout(s: StepState, c: int)
    ensures
        ({
            let wd = add_sub_widths(s, c);
            let overflow = e_cell(cell_at(c + 41));
            &&& wd.len() == 32
            &&& wd[22].scope == RowScope::Last
            &&& wd[31].scope == RowScope::Last
            &&& wd[22].poly == e_mul(e_is_width(s, 16, cell_at(c + 39)),
                e_sub(overflow, e_cell(s.stack_push_value.cells[1])))
            &&& wd[31].poly == e_mul(e_is_width(s, 32, cell_at(c + 40)), e_sub(overflow, e_cell(cell_at(c + 33))))
        }),
{
    let wd = add_sub_widths(s, c);
    assert(wd.len() == 32);
}

/// What `AddSub` proves for the widths of 128 and 256 bits: at the last row
/// of an `Add` or `Sub` step whose width `aux0` is 16 bytes (`wide` false)
/// or 32 (`wide` true), under the other hypotheses of `lemma_add_sub_sound`, the
/// result is `lhs + rhs` (for `Sub`: `lhs - rhs`) modulo `2^256`. For 256
/// bits `overflow` is the carry out of 256 bits: `lhs + rhs >= 2^256` for
/// `Add`, `lhs < rhs` for `Sub`. For 128 bits `overflow` is the result's high
/// limb, and when both operands fit 128 bits, `Add` gives `lhs + rhs` with
/// `overflow` set exactly when that does not fit, and `Sub` is satisfiable
/// only for `rhs <= lhs`, gives `lhs - rhs` and never overflows.
#[verifier::rlimit(100)]
pub proof fn lemma_add_sub_wide_sound(s: StepState, p: StepState, c: int, wide: bool, w: Witness, row: int)
    requires
        eval(e_cell(s.opcode), w, row) == Opcode::Add.spec_index()
            || eval(e_cell(s.opcode), w, row) == Opcode::Sub.spec_index(),
        eval(e_cell(s.aux0), w, row) == (if wide { 32int } else { 16int }),
        forall|i: int| 0 <= i < add_sub_constraints(s, p, c).len() && add_sub_constraints(s, p, c)[i].scope == RowScope::Last
            ==> #[trigger] eval(add_sub_constraints(s, p, c)[i].poly, w, row) % (modulus() as int) == 0,
        0 <= eval(e_cell(s.stack_pop_value.cells[0]), w, row) < two_128(),
        0 <= eval(e_cell(s.stack_pop_value.cells[1]), w, row) < two_128(),
        0 <= eval(e_cell(p.stack_pop_value.cells[0]), w, row) < two_128(),
        0 <= eval(e_cell(p.stack_pop_value.cells[1]), w, row) < two_128(),
        0 <= eval(e_cell(s.stack_push_value.cells[0]), w, row) < two_128(),
        0 <= eval(e_cell(s.stack_push_value.cells[1]), w, row) < two_128(),
        field_is_prime(),
        field_witness(w),
    ensures
        ({
            let kk = two_128() as int;
            let a = eval(e_cell(s.stack_pop_value.cells[0]), w, row) + eval(e_cell(s.stack_pop_value.cells[1]), w, row) * kk;
            let b = eval(e_cell(p.stack_pop_value.cells[0]), w, row) + eval(e_cell(p.stack_pop_value.cells[1]), w, row) * kk;
            let o = eval(e_cell(s.stack_push_value.cells[0]), w, row) + eval(e_cell(s.stack_push_value.cells[1]), w, row) * kk;
            let ov = eval(e_cell(cell_at(c + 41)), w, row);
            let is_add = eval(e_cell(s.opcode), w, row) == Opcode::Add.spec_index();
            &&& is_add ==> o == (a + b) % (two_256() as int)
            &&& !is_add ==> a == (o + b) % (two_256() as int)
            &&& (wide && is_add) ==> (ov == 1 <==> a + b >= two_256())
            &&& (wide && !is_add) ==> (ov == 1 <==> a < b)
            &&& !wide ==> ov == eval(e_cell(s.stack_push_value.cells[1]), w, row)
            &&& (!wide && a < kk && b < kk && is_add) ==> (o == a + b && (ov == 1 <==> a + b >= kk))
            &&& (!wide && a < kk && b < kk && !is_add) ==> (b <= a && o == a - b && ov == 0)
        }),
{
    lemma_add_sub_bits(s, p, c, w, row);
    let pp = modulus() as int;
    lemma_modulus_bounds();
    lemma_two_128();
    lemma_pow2_strictly_increases(128, 254);
    let cs = add_sub_constraints(s, p, c);
    lemma_add_sub_layout(s, p, c, 0);
    lemma_wide_layout(s, c);
    lemma_core_layout(s, p, c);
    let core = add_sub_core_constraints(s, p, c);
    let wd = add_sub_widths(s, c);
    assert(cs[39] == wd[22]) by {
        assert(cs[39] == core[39]);
        assert(core.skip(17)[22] == core[39]);
    }
    assert(cs[48] == wd[31]) by {
        assert(cs[48] == core[48]);
        assert(core.skip(17)[31] == core[48]);
    }
    assert(eval(cs[49].poly, w, row) % pp == 0);
    assert forall|i: int| 13 <= i < 17 implies #[trigger] eval(add_sub_core_constraints(s, p, c)[i].poly, w, row)
        % pp == 0 by {
        assert(cs[i] == add_sub_core_constraints(s, p, c)[i]);
        assert(eval(cs[i].poly, w, row) % pp == 0);
    }
    lemma_add_sub_arith(s, p, c, w, row);
    let kk = two_128() as int;
    let ov = eval(e_cell(cell_at(c + 41)), w, row);
    let o_lo = eval(e_cell(s.stack_push_value.cells[0]), w, row);
    let o_hi = eval(e_cell(s.stack_push_value.cells[1]), w, row);
    let a = eval(e_cell(s.stack_pop_value.cells[0]), w, row) + eval(e_cell(s.stack_pop_value.cells[1]), w, row) * kk;
    let b = eval(e_cell(p.stack_pop_value.cells[0]), w, row) + eval(e_cell(p.stack_pop_value.cells[1]), w, row) * kk;
    let o = o_lo + o_hi * kk;
    let m: nat = if wide { 32 } else { 16 };
    let flag = e_is_width(s, m, cell_at(c + 35 + (if wide { 5int } else { 4int })));
    assert(eval(flag, w, row) == 1) by {
        reveal_with_fuel(eval, 4);
        let iv = eval(e_cell(cell_at(c + 35 + (if wide { 5int } else { 4int }))), w, row);
        assert(eval(e_sub(e_cell(s.aux0), e_const(m as u128)), w, row) == 0);
        assert(eval(e_sub(e_cell(s.aux0), e_const(m as u128)), w, row) * iv == 0);
    }
    lemma_small_mod(1, pp as nat);
    assert(0 <= a && 0 <= b && 0 <= o && o < kk * kk) by (nonlinear_arith)
        requires
            a == eval(e_cell(s.stack_pop_value.cells[0]), w, row) + eval(e_cell(s.stack_pop_value.cells[1]), w, row) * kk,
            b == eval(e_cell(p.stack_pop_value.cells[0]), w, row) + eval(e_cell(p.stack_pop_value.cells[1]), w, row) * kk,
            o == o_lo + o_hi * kk,
            0 <= eval(e_cell(s.stack_pop_value.cells[0]), w, row), 0 <= eval(e_cell(s.stack_pop_value.cells[1]), w, row),
            0 <= eval(e_cell(p.stack_pop_value.cells[0]), w, row), 0 <= eval(e_cell(p.stack_pop_value.cells[1]), w, row),
            0 <= o_lo < kk, 0 <= o_hi < kk;
    if wide {
        assert(eval(cs[48].poly, w, row) % pp == 0);
        let ch = eval(e_cell(cell_at(c + 33)), w, row);
        assert(eval(cs[48].poly, w, row) == eval(flag, w, row) * (ov - ch)) by { reveal_with_fuel(eval, 3); }
        lemma_unit_factor(1, ov - ch);
        lemma_small_int_mod_zero(ov - ch, pp);
        // the high carry of the sum's (or the difference's) equation
        let is_add = eval(e_cell(s.opcode), w, row) == Opcode::Add.spec_index();
        if !is_add {
            if o + b >= two_256() {
                lemma_mod_multiples_vanish(-1, o + b, two_256() as int);
                lemma_small_mod((o + b - two_256()) as nat, two_256());
            } else {
                lemma_small_mod((o + b) as nat, two_256());
            }
        }
    } else {
        assert(eval(cs[39].poly, w, row) % pp == 0);
        assert(eval(cs[39].poly, w, row) == eval(flag, w, row) * (ov - o_hi)) by { reveal_with_fuel(eval, 3); }
        lemma_unit_factor(1, ov - o_hi);
        lemma_small_int_mod_zero(ov - o_hi, pp);
        if a < kk && b < kk {
            assert(kk * kk >= 2 * kk) by (nonlinear_arith) requires kk > 2;
            if eval(e_cell(s.opcode), w, row) == Opcode::Add.spec_index() {
                lemma_small_mod((a + b) as nat, two_256());
                if o_hi == 0 { assert(o == o_lo); } else { assert(o_hi == 1); assert(o == o_lo + kk); }
            } else {
                if o + b >= two_256() {
                    lemma_mod_multiples_vanish(-1, o + b, two_256() as int);
                    lemma_small_mod((o + b - two_256()) as nat, two_256());
                    assert(o_hi == 1 || o_hi == 0);
                    assert(o < 2 * kk) by (nonlinear_arith) requires o == o_lo + o_hi * kk, o_lo < kk, 0 <= o_hi <= 1, kk > 0;
                    assert(false);
                } else {
                    lemma_small_mod((o + b) as nat, two_256());
                    if o_hi == 1 {
                        assert(o >= kk);
                        assert(false);
                    }
                }
            }
        }
    }
}

/// The overflow flag of `AddSub` is the width's bound: for 1 to 8 bytes the
/// low limb of the result reaches `2^(8 n)`, for 16 bytes the high limb is
/// `1`, for 32 bytes the high carry is `1`.
pub proof fn lemma_add_sub_overflow_bound(num_bytes: nat, out_lo: nat, out_hi: nat, carry_hi: int)
    requires
        is_int_width(num_bytes),
    ensures
        num_bytes <= 8 ==> (add_sub_overflow(num_bytes, out_lo, out_hi, carry_hi) <==> out_lo >= pow2(8 * num_bytes)),
        num_bytes == 16 ==> (add_sub_overflow(num_bytes, out_lo, out_hi, carry_hi) <==> out_hi == 1),
        num_bytes == 32 ==> (add_sub_overflow(num_bytes, out_lo, out_hi, carry_hi) <==> carry_hi == 1),
{
    lemma2_to64();
}

} // verus!
