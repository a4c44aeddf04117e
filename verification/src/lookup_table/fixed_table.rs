use vstd::prelude::*;
use vstd::arithmetic::power2::*;
use crate::field::Fe;
use crate::u256::{lemma_two_128, two_128};

verus! {

/// Tags for different fixed tables
#[derive(Clone, Copy, PartialEq, Eq, Debug)]
pub enum FixedTableTag {
    /// x == 0
    Zero,
    /// 0 <= x < 5
    Range5,
    /// 0 <= x < 16
    Range16,
    /// 0 <= x < 32
    Range32,
    /// 0 <= x < 64
    Range64,
    /// 0 <= x < 128
    Range128,
    /// 0 <= x < 256
    Range256,
    /// 0 <= x < 512
    Range512,
    /// 0 <= x < 1024
    Range1024,
    /// -128 <= x < 128
    SignByte,
    /// bitwise AND
    BitwiseAnd,
    /// bitwise OR
    BitwiseOr,
    /// bitwise XOR
    BitwiseXor,
    /// power of 2
    Pow2,
}

/// The bound of a range tag: its rows hold `0 .. bound`.
pub open spec fn range_bound(tag: FixedTableTag) -> nat {
    match tag {
        FixedTableTag::Range5 => 5,
        FixedTableTag::Range16 => 16,
        FixedTableTag::Range32 => 32,
        FixedTableTag::Range64 => 64,
        FixedTableTag::Range128 => 128,
        FixedTableTag::Range256 => 256,
        FixedTableTag::Range512 => 512,
        FixedTableTag::Range1024 => 1024,
        _ => 0,
    }
}

pub open spec fn is_range(tag: FixedTableTag) -> bool {
    range_bound(tag) > 0
}

/// `op` applied to two nibbles: `&`, `|` or `^`.
pub open spec fn nibble_op(tag: FixedTableTag, a: u64, b: u64) -> u64 {
    match tag {
        FixedTableTag::BitwiseAnd => a & b,
        FixedTableTag::BitwiseOr => a | b,
        _ => a ^ b,
    }
}

impl FixedTableTag {
    /// The tag's number: its position in the list of tags.
    pub open spec fn spec_index(self) -> nat {
        match self {
            FixedTableTag::Zero => 0,
            FixedTableTag::Range5 => 1,
            FixedTableTag::Range16 => 2,
            FixedTableTag::Range32 => 3,
            FixedTableTag::Range64 => 4,
            FixedTableTag::Range128 => 5,
            FixedTableTag::Range256 => 6,
            FixedTableTag::Range512 => 7,
            FixedTableTag::Range1024 => 8,
            FixedTableTag::SignByte => 9,
            FixedTableTag::BitwiseAnd => 10,
            FixedTableTag::BitwiseOr => 11,
            FixedTableTag::BitwiseXor => 12,
            FixedTableTag::Pow2 => 13,
        }
    }

    pub fn index(&self) -> (r: u64)
        ensures
            r == self.spec_index(),
    {
        match self {
            FixedTableTag::Zero => 0,
            FixedTableTag::Range5 => 1,
            FixedTableTag::Range16 => 2,
            FixedTableTag::Range32 => 3,
            FixedTableTag::Range64 => 4,
            FixedTableTag::Range128 => 5,
            FixedTableTag::Range256 => 6,
            FixedTableTag::Range512 => 7,
            FixedTableTag::Range1024 => 8,
            FixedTableTag::SignByte => 9,
            FixedTableTag::BitwiseAnd => 10,
            FixedTableTag::BitwiseOr => 11,
            FixedTableTag::BitwiseXor => 12,
            FixedTableTag::Pow2 => 13,
        }
    }

    /// The number of rows of the tag's table.
    pub open spec fn spec_len(self) -> nat {
        match self {
            FixedTableTag::Zero => 1,
            FixedTableTag::SignByte | FixedTableTag::BitwiseAnd | FixedTableTag::BitwiseOr
                | FixedTableTag::BitwiseXor | FixedTableTag::Pow2 => 256,
            _ => range_bound(self),
        }
    }

    /// Row `i` of the tag's table: `[tag, a, b, c]`. A range row holds `i`; a
    /// sign-byte row holds `i` and `0xFF` when `i` is negative as a byte; a
    /// bitwise row holds two nibbles and the result of the operation on them;
    /// a power row holds `i` and `2^i` split into 128-bit halves.
    pub open spec fn spec_row(self, i: nat) -> Seq<nat> {
        let t = self.spec_index();
        match self {
            FixedTableTag::Zero => seq![t, 0, 0, 0],
            FixedTableTag::SignByte => seq![t, i, (i / 128) * 255, 0],
            FixedTableTag::BitwiseAnd | FixedTableTag::BitwiseOr | FixedTableTag::BitwiseXor =>
                seq![t, i / 16, i % 16, nibble_op(self, (i / 16) as u64, (i % 16) as u64) as nat],
            FixedTableTag::Pow2 => if i < 128 {
                seq![t, i, pow2(i), 0]
            } else {
                seq![t, i, 0, pow2((i - 128) as nat)]
            },
            _ => seq![t, i, 0, 0],
        }
    }

    fn len(&self) -> (r: u64)
        ensures
            r == self.spec_len(),
    {
        match self {
            FixedTableTag::Zero => 1,
            FixedTableTag::Range5 => 5,
            FixedTableTag::Range16 => 16,
            FixedTableTag::Range32 => 32,
            FixedTableTag::Range64 => 64,
            FixedTableTag::Range128 => 128,
            FixedTableTag::Range256 => 256,
            FixedTableTag::Range512 => 512,
            FixedTableTag::Range1024 => 1024,
            _ => 256,
        }
    }

    fn row(&self, i: u64) -> (r: [Fe; 4])
        requires
            i < self.spec_len(),
        ensures
            forall|j: int| 0 <= j < 4 ==> #[trigger] r@[j].val() == self.spec_row(i as nat)[j],
    {
        let tag = Fe::from_u64(self.index());
        let r = match self {
            FixedTableTag::Zero => [tag, Fe::zero(), Fe::zero(), Fe::zero()],
            FixedTableTag::SignByte => {
                let h = i >> 7;
                proof {
                    assert(h == i / 128) by (bit_vector)
                        requires h == i >> 7;
                }
                [tag, Fe::from_u64(i), Fe::from_u64(h * 0xFF), Fe::zero()]
            },
            FixedTableTag::BitwiseAnd => {
                let (a, b) = (i / 16, i % 16);
                [tag, Fe::from_u64(a), Fe::from_u64(b), Fe::from_u64(a & b)]
            },
            FixedTableTag::BitwiseOr => {
                let (a, b) = (i / 16, i % 16);
                [tag, Fe::from_u64(a), Fe::from_u64(b), Fe::from_u64(a | b)]
            },
            FixedTableTag::BitwiseXor => {
                let (a, b) = (i / 16, i % 16);
                [tag, Fe::from_u64(a), Fe::from_u64(b), Fe::from_u64(a ^ b)]
            },
            FixedTableTag::Pow2 => {
                if i < 128 {
                    [tag, Fe::from_u64(i), Fe::pow_of_two(i as u32), Fe::zero()]
                } else {
                    [tag, Fe::from_u64(i), Fe::zero(), Fe::pow_of_two((i - 128) as u32)]
                }
            },
            _ => [tag, Fe::from_u64(i), Fe::zero(), Fe::zero()],
        };
        r
    }

    /// The rows of the tag's table, in order.
    pub fn build(&self) -> (r: Vec<[Fe; 4]>)
        ensures
            r@.len() == self.spec_len(),
            forall|i: int, j: int| 0 <= i < r@.len() && 0 <= j < 4 ==>
                #[trigger] r@[i]@[j].val() == self.spec_row(i as nat)[j],
            forall|i: int| 0 <= i < r@.len() ==> {
                let a = (i / 16) as u64;
                let b = (i % 16) as u64;
                &&& (#[trigger] r@[i])@[0].val() == self.spec_index()
                &&& *self == FixedTableTag::BitwiseAnd ==> r@[i]@[1].val() == a && r@[i]@[2].val() == b
                    && r@[i]@[3].val() == (a & b)
                &&& *self == FixedTableTag::BitwiseOr ==> r@[i]@[1].val() == a && r@[i]@[2].val() == b
                    && r@[i]@[3].val() == (a | b)
                &&& *self == FixedTableTag::BitwiseXor ==> r@[i]@[1].val() == a && r@[i]@[2].val() == b
                    && r@[i]@[3].val() == (a ^ b)
                &&& *self == FixedTableTag::SignByte ==> r@[i]@[1].val() == i
                    && r@[i]@[2].val() == (if i < 128 { 0nat } else { 0xFFnat })
                &&& is_range(*self) ==> r@[i]@[1].val() == i && r@[i]@[2].val() == 0 && r@[i]@[3].val() == 0
            },
    {
        let n = self.len();
        let mut r: Vec<[Fe; 4]> = Vec::new();
        let mut i: u64 = 0;
        while i < n
            invariant
                i <= n,
                n == self.spec_len(),
                r@.len() == i,
                forall|k: int, j: int| 0 <= k < i && 0 <= j < 4 ==>
                    #[trigger] r@[k]@[j].val() == self.spec_row(k as nat)[j],
            decreases n - i,
        {
            r.push(self.row(i));
            i = i + 1;
        }
        proof {
            assert forall|i: int| 0 <= i < r@.len() implies {
                let a = (i / 16) as u64;
                let b = (i % 16) as u64;
                &&& (#[trigger] r@[i])@[0].val() == self.spec_index()
                &&& *self == FixedTableTag::BitwiseAnd ==> r@[i]@[1].val() == a && r@[i]@[2].val() == b
                    && r@[i]@[3].val() == (a & b)
                &&& *self == FixedTableTag::BitwiseOr ==> r@[i]@[1].val() == a && r@[i]@[2].val() == b
                    && r@[i]@[3].val() == (a | b)
                &&& *self == FixedTableTag::BitwiseXor ==> r@[i]@[1].val() == a && r@[i]@[2].val() == b
                    && r@[i]@[3].val() == (a ^ b)
                &&& *self == FixedTableTag::SignByte ==> r@[i]@[1].val() == i
                    && r@[i]@[2].val() == (if i < 128 { 0nat } else { 0xFFnat })
                &&& is_range(*self) ==> r@[i]@[1].val() == i && r@[i]@[2].val() == 0 && r@[i]@[3].val() == 0
            } by {
                lemma_fixed_table_row(*self, i as nat);
                assert(r@[i]@[0].val() == self.spec_row(i as nat)[0]);
                assert(r@[i]@[1].val() == self.spec_row(i as nat)[1]);
                assert(r@[i]@[2].val() == self.spec_row(i as nat)[2]);
                assert(r@[i]@[3].val() == self.spec_row(i as nat)[3]);
            }
        }
        r
    }

    /// Every tag, in order.
    pub fn iter() -> (r: Vec<FixedTableTag>)
        ensures
            r@.len() == 14,
            forall|i: int| 0 <= i < 14 ==> (#[trigger] r@[i]).spec_index() == i,
    {
        let r = vec![
            FixedTableTag::Zero,
            FixedTableTag::Range5,
            FixedTableTag::Range16,
            FixedTableTag::Range32,
            FixedTableTag::Range64,
            FixedTableTag::Range128,
            FixedTableTag::Range256,
            FixedTableTag::Range512,
            FixedTableTag::Range1024,
            FixedTableTag::SignByte,
            FixedTableTag::BitwiseAnd,
            FixedTableTag::BitwiseOr,
            FixedTableTag::BitwiseXor,
            FixedTableTag::Pow2,
        ];
        r
    }
}

/// The rows of the fixed table: each starts with its tag's number; a range
/// row holds its own number, a sign-byte row its byte and `0xFF` exactly
/// when the byte is negative, and a bitwise row the nibbles `i / 16` and
/// `i % 16` with their AND, OR or XOR.
pub proof fn lemma_fixed_table_row(tag: FixedTableTag, i: nat)
    requires
        i < tag.spec_len(),
    ensures
        ({
            let row = tag.spec_row(i);
            let a = (i / 16) as u64;
            let b = (i % 16) as u64;
            &&& row[0] == tag.spec_index()
            &&& tag == FixedTableTag::BitwiseAnd ==> row[1] == a && row[2] == b && row[3] == (a & b)
            &&& tag == FixedTableTag::BitwiseOr ==> row[1] == a && row[2] == b && row[3] == (a | b)
            &&& tag == FixedTableTag::BitwiseXor ==> row[1] == a && row[2] == b && row[3] == (a ^ b)
            &&& tag == FixedTableTag::SignByte ==> row[1] == i && row[2] == (if i < 128 { 0nat } else { 0xFFnat })
            &&& is_range(tag) ==> row[1] == i && row[2] == 0 && row[3] == 0
        }),
{
    if tag == FixedTableTag::SignByte {
        assert(i < 256);
        if i < 128 { assert(i / 128 == 0); } else { assert(i / 128 == 1); }
    }
}

/// Every row of the power table splits `2^value` into halves:
/// `pow_lo + pow_hi * 2^128 == 2^value`, with both halves below `2^128`.
pub proof fn lemma_pow2_rows(i: nat)
    requires
        i < FixedTableTag::Pow2.spec_len(),
    ensures
        ({
            let row = FixedTableTag::Pow2.spec_row(i);
            &&& row[1] == i
            &&& row[2] + row[3] * two_128() == pow2(i)
            &&& row[2] < two_128() && row[3] < two_128()
        }),
{
    lemma_two_128();
    if i < 128 {
        lemma_pow2_strictly_increases(i, 128);
    } else {
        let k = (i - 128) as nat;
        lemma_pow2_adds(k, 128);
        assert(k + 128 == i);
        if k < 128 {
            lemma_pow2_strictly_increases(k, 128);
        }
        vstd::arithmetic::mul::lemma_mul_is_commutative(pow2(k) as int, pow2(128) as int);
    }
}

/// Every row of a bitwise table holds two nibbles and a nibble result.
pub proof fn lemma_bitwise_rows(tag: FixedTableTag, i: nat)
    requires
        tag == FixedTableTag::BitwiseAnd || tag == FixedTableTag::BitwiseOr || tag == FixedTableTag::BitwiseXor,
        i < tag.spec_len(),
    ensures
        ({
            let row = tag.spec_row(i);
            &&& row[1] < 16 && row[2] < 16 && row[3] < 16
            &&& row[1] * 16 + row[2] == i
        }),
{
    let a = (i / 16) as u64;
    let b = (i % 16) as u64;
    assert(a < 16 && b < 16);
    assert((a & b) < 16 && (a | b) < 16 && (a ^ b) < 16) by (bit_vector)
        requires a < 16, b < 16;
}

} // verus!
