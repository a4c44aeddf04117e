use vstd::prelude::*;
use vstd::arithmetic::power2::*;
use crate::field::Fe;
use crate::opcode::Opcode;
use crate::u256::{lemma_two_128, two_128};

verus! {

/// The table of the bitwise instructions on nibbles.
#[derive(Clone, Copy, Debug)]
pub struct BitwiseLookupTable;

/// The instructions of the bitwise table, in the order of its blocks.
pub open spec fn bitwise_table_opcodes() -> Seq<Opcode> {
    seq![Opcode::BitAnd, Opcode::BitOr, Opcode::Xor]
}

/// The result of a bitwise instruction on two nibbles.
pub open spec fn bitwise_result(op: Opcode, a: u64, b: u64) -> u64 {
    match op {
        Opcode::BitAnd => a & b,
        Opcode::BitOr => a | b,
        _ => a ^ b,
    }
}

/// Row `i` of the bitwise table: `(opcode, lhs, rhs, result)`, with 256 rows
/// per instruction and the left nibble outermost.
pub open spec fn bitwise_table_row(i: nat) -> Seq<nat> {
    let op = bitwise_table_opcodes()[(i / 256) as int];
    let lhs = (i % 256) / 16;
    let rhs = i % 16;
    seq![op.spec_index() as nat, lhs, rhs, bitwise_result(op, lhs as u64, rhs as u64) as nat]
}

impl BitwiseLookupTable {
    /// The rows of the table, in order.
    pub fn build(&self) -> (r: Vec<[Fe; 4]>)
        ensures
            r@.len() == 768,
            forall|i: int, j: int| 0 <= i < 768 && 0 <= j < 4 ==>
                #[trigger] r@[i]@[j].val() == bitwise_table_row(i as nat)[j],
            forall|i: int| 0 <= i < 256 ==> {
                let a = (i / 16) as u64;
                let b = (i % 16) as u64;
                &&& (#[trigger] r@[i])@[0].val() == Opcode::BitAnd.spec_index()
                &&& r@[i]@[1].val() == a && r@[i]@[2].val() == b && r@[i]@[3].val() == (a & b)
                &&& r@[256 + i]@[0].val() == Opcode::BitOr.spec_index()
                &&& r@[256 + i]@[1].val() == a && r@[256 + i]@[2].val() == b && r@[256 + i]@[3].val() == (a | b)
                &&& r@[512 + i]@[0].val() == Opcode::Xor.spec_index()
                &&& r@[512 + i]@[1].val() == a && r@[512 + i]@[2].val() == b && r@[512 + i]@[3].val() == (a ^ b)
            },
    {
        let ops = [Opcode::BitAnd, Opcode::BitOr, Opcode::Xor];
        let mut r: Vec<[Fe; 4]> = Vec::new();
        let mut k: usize = 0;
        while k < 3
            invariant
                k <= 3,
                ops@ == bitwise_table_opcodes(),
                r@.len() == 256 * k,
                forall|i: int, j: int| 0 <= i < 256 * k && 0 <= j < 4 ==>
                    #[trigger] r@[i]@[j].val() == bitwise_table_row(i as nat)[j],
            decreases 3 - k,
        {
            let op = ops[k];
            let opcode = Fe::from_u64(op.index());
            let mut lhs: u64 = 0;
            while lhs < 16
                invariant
                    k < 3,
                    lhs <= 16,
                    op == bitwise_table_opcodes()[k as int],
                    opcode.val() == op.spec_index(),
                    r@.len() == 256 * k + 16 * lhs,
                    forall|i: int, j: int| 0 <= i < 256 * k + 16 * lhs && 0 <= j < 4 ==>
                        #[trigger] r@[i]@[j].val() == bitwise_table_row(i as nat)[j],
                decreases 16 - lhs,
            {
                let mut rhs: u64 = 0;
                while rhs < 16
                    invariant
                        k < 3,
                        lhs < 16,
                        rhs <= 16,
                        op == bitwise_table_opcodes()[k as int],
                        opcode.val() == op.spec_index(),
                        r@.len() == 256 * k + 16 * lhs + rhs,
                        forall|i: int, j: int| 0 <= i < 256 * k + 16 * lhs + rhs && 0 <= j < 4 ==>
                            #[trigger] r@[i]@[j].val() == bitwise_table_row(i as nat)[j],
                    decreases 16 - rhs,
                {
                    let result = match op {
                        Opcode::BitAnd => lhs & rhs,
                        Opcode::BitOr => lhs | rhs,
                        _ => lhs ^ rhs,
                    };
                    let row = [opcode, Fe::from_u64(lhs), Fe::from_u64(rhs), Fe::from_u64(result)];
                    proof {
                        let i = 256 * k + 16 * lhs + rhs;
                        assert(i / 256 == k && (i % 256) / 16 == lhs && i % 16 == rhs) by (nonlinear_arith)
                            requires i == 256 * k + 16 * lhs + rhs, lhs < 16, rhs < 16;
                    }
                    r.push(row);
                    rhs = rhs + 1;
                }
                lhs = lhs + 1;
            }
            k = k + 1;
        }
        proof {
            assert forall|i: int| 0 <= i < 256 implies {
                let a = (i / 16) as u64;
                let b = (i % 16) as u64;
                &&& (#[trigger] r@[i])@[0].val() == Opcode::BitAnd.spec_index()
                &&& r@[i]@[1].val() == a && r@[i]@[2].val() == b && r@[i]@[3].val() == (a & b)
                &&& r@[256 + i]@[0].val() == Opcode::BitOr.spec_index()
                &&& r@[256 + i]@[1].val() == a && r@[256 + i]@[2].val() == b && r@[256 + i]@[3].val() == (a | b)
                &&& r@[512 + i]@[0].val() == Opcode::Xor.spec_index()
                &&& r@[512 + i]@[1].val() == a && r@[512 + i]@[2].val() == b && r@[512 + i]@[3].val() == (a ^ b)
            } by {
                lemma_bitwise_table_blocks(i as nat);
                assert(r@[i]@[0].val() == bitwise_table_row(i as nat)[0]);
                assert(r@[i]@[1].val() == bitwise_table_row(i as nat)[1]);
                assert(r@[i]@[2].val() == bitwise_table_row(i as nat)[2]);
                assert(r@[i]@[3].val() == bitwise_table_row(i as nat)[3]);
                assert(r@[256 + i]@[0].val() == bitwise_table_row((256 + i) as nat)[0]);
                assert(r@[256 + i]@[1].val() == bitwise_table_row((256 + i) as nat)[1]);
                assert(r@[256 + i]@[2].val() == bitwise_table_row((256 + i) as nat)[2]);
                assert(r@[256 + i]@[3].val() == bitwise_table_row((256 + i) as nat)[3]);
                assert(r@[512 + i]@[0].val() == bitwise_table_row((512 + i) as nat)[0]);
                assert(r@[512 + i]@[1].val() == bitwise_table_row((512 + i) as nat)[1]);
                assert(r@[512 + i]@[2].val() == bitwise_table_row((512 + i) as nat)[2]);
                assert(r@[512 + i]@[3].val() == bitwise_table_row((512 + i) as nat)[3]);
            }
        }
        r
    }
}

/// The three blocks of the bitwise table: row `i` of each (`i < 256`) holds
/// the left nibble `i / 16`, the right nibble `i % 16`, and their AND, OR
/// and XOR respectively, with the block's opcode.
pub proof fn lemma_bitwise_table_blocks(i: nat)
    requires
        i < 256,
    ensures
        ({
            let a = (i / 16) as u64;
            let b = (i % 16) as u64;
            &&& bitwise_table_row(i) == seq![Opcode::BitAnd.spec_index() as nat, a as nat, b as nat, (a & b) as nat]
            &&& bitwise_table_row(256 + i) == seq![Opcode::BitOr.spec_index() as nat, a as nat, b as nat, (a | b) as nat]
            &&& bitwise_table_row(512 + i) == seq![Opcode::Xor.spec_index() as nat, a as nat, b as nat, (a ^ b) as nat]
        }),
{
    assert((256 + i) / 256 == 1 && (256 + i) % 256 == i && (256 + i) % 16 == i % 16);
    assert((512 + i) / 256 == 2 && (512 + i) % 256 == i && (512 + i) % 16 == i % 16);
    assert(i / 256 == 0 && i % 256 == i);
}

/// The table of powers of two, `2^value` split into 128-bit halves.
#[derive(Clone, Copy, Debug)]
pub struct Pow2LookupTable;

impl Pow2LookupTable {
    /// The rows `[value, pow_lo, pow_hi]` for `value` in `0 .. 256`.
    pub fn build(&self) -> (r: Vec<Vec<Fe>>)
        ensures
            r@.len() == 256,
            forall|i: int| 0 <= i < 256 ==> {
                let row = #[trigger] r@[i]@;
                &&& row.len() == 3
                &&& row[0].val() == i
                &&& row[1].val() == (if i < 128 { pow2(i as nat) } else { 0 })
                &&& row[2].val() == (if i < 128 { 0 } else { pow2((i - 128) as nat) })
            },
    {
        let mut r: Vec<Vec<Fe>> = Vec::new();
        let mut value: u32 = 0;
        while value < 256
            invariant
                value <= 256,
                r@.len() == value,
                forall|i: int| 0 <= i < value ==> {
                    let row = #[trigger] r@[i]@;
                    &&& row.len() == 3
                    &&& row[0].val() == i
                    &&& row[1].val() == (if i < 128 { pow2(i as nat) } else { 0 })
                    &&& row[2].val() == (if i < 128 { 0 } else { pow2((i - 128) as nat) })
                },
            decreases 256 - value,
        {
            let (lo, hi) = if value < 128 {
                (Fe::pow_of_two(value), Fe::zero())
            } else {
                (Fe::zero(), Fe::pow_of_two(value - 128))
            };
            r.push(vec![Fe::from_u64(value as u64), lo, hi]);
            value = value + 1;
        }
        r
    }
}

/// Every row of the power table splits `2^value` into halves below `2^128`:
/// `pow_lo + pow_hi * 2^128 == 2^value`.
pub proof fn lemma_pow2_table_row(value: nat)
    requires
        value < 256,
    ensures
        ({
            let lo = if value < 128 { pow2(value) } else { 0 };
            let hi = if value < 128 { 0 } else { pow2((value - 128) as nat) };
            &&& lo + hi * two_128() == pow2(value)
            &&& lo < two_128() && hi < two_128()
        }),
{
    lemma_two_128();
    if value < 128 {
        lemma_pow2_strictly_increases(value, 128);
    } else {
        let k = (value - 128) as nat;
        lemma_pow2_adds(k, 128);
        if k < 128 {
            lemma_pow2_strictly_increases(k, 128);
        }
        vstd::arithmetic::mul::lemma_mul_is_commutative(pow2(k) as int, pow2(128) as int);
    }
}

/// Every row of the bitwise table holds two nibbles and a nibble result.
pub proof fn lemma_bitwise_table_row(i: nat)
    requires
        i < 768,
    ensures
        ({
            let row = bitwise_table_row(i);
            &&& row[1] < 16 && row[2] < 16 && row[3] < 16
        }),
{
    let a = ((i % 256) / 16) as u64;
    let b = (i % 16) as u64;
    assert((a & b) < 16 && (a | b) < 16 && (a ^ b) < 16) by (bit_vector)
        requires a < 16, b < 16;
}

} // verus!
