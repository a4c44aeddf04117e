use vstd::prelude::*;
use crate::field::Fe;
use crate::u256::U256;

verus! {

/// The integer types of Move signatures, and the rest.
#[derive(Clone, Copy, PartialEq, Eq, Debug)]
pub enum SignatureToken {
    Bool,
    U8,
    U16,
    U32,
    U64,
    U128,
    U256,
    Address,
    Signer,
    Vector,
    Struct,
    Reference,
    MutableReference,
    TypeParameter,
}

/// The width in bytes of an integer type.
pub open spec fn num_bytes_of(s: SignatureToken) -> Option<nat> {
    match s {
        SignatureToken::U8 => Some(1),
        SignatureToken::U16 => Some(2),
        SignatureToken::U32 => Some(4),
        SignatureToken::U64 => Some(8),
        SignatureToken::U128 => Some(16),
        SignatureToken::U256 => Some(32),
        _ => None,
    }
}

/// The width in bytes of an integer type (`get_num_bytes`).
pub fn get_num_bytes(s: &SignatureToken) -> (r: usize)
    requires
        num_bytes_of(*s) is Some,
    ensures
        r == num_bytes_of(*s)->Some_0,
{
    match s {
        SignatureToken::U8 => 1,
        SignatureToken::U16 => 2,
        SignatureToken::U32 => 4,
        SignatureToken::U64 => 8,
        SignatureToken::U128 => 16,
        _ => 32,
    }
}

/// The two 128-bit halves of a 256-bit integer as field elements.
pub fn convert_u256_to_fe_pair(input: U256) -> (r: (Fe, Fe))
    ensures
        r.0.val() == input.lo,
        r.1.val() == input.hi,
{
    (Fe::from_u128(input.lo), Fe::from_u128(input.hi))
}

} // verus!
