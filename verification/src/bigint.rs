//! Arbitrary-precision arithmetic on big-endian byte strings.
//!
//! The numbers themselves are computed by `num_bigint::BigUint`; they enter
//! and leave as byte strings, whose meaning `magnitude` fixes.

use vstd::prelude::*;
use crate::magnitude::{be_value, bit_and, minimal_bytes, pow2};
use num_bigint::BigUint;

verus! {

/// Reads `bytes` with `BigUint::from_bytes_be` and writes the number back
/// with `BigUint::to_bytes_be`: the result spells the same number without
/// leading zero bytes, and is the single byte `0` for zero.
#[verifier::external_body]
pub(crate) fn be_normalize(bytes: &Vec<u8>) -> (r: Vec<u8>)
    ensures
        r@ == minimal_bytes(be_value(bytes@)),
{
    BigUint::from_bytes_be(bytes).to_bytes_be()
}

/// Shifts the number that `bytes` spell right by `bits` bits with
/// `BigUint`'s `>>`, which divides by `2^bits` and drops the remainder. The
/// result is in the shortest form.
#[verifier::external_body]
pub(crate) fn be_shift_right(bytes: &Vec<u8>, bits: u32) -> (r: Vec<u8>)
    ensures
        r@ == minimal_bytes(be_value(bytes@) / pow2(bits as nat)),
{
    (BigUint::from_bytes_be(bytes) >> bits).to_bytes_be()
}

/// Combines the numbers that `a` and `b` spell with `BigUint`'s `&`, the
/// bitwise conjunction. The result is in the shortest form.
#[verifier::external_body]
pub(crate) fn be_bit_and(a: &Vec<u8>, b: &Vec<u8>) -> (r: Vec<u8>)
    ensures
        r@ == minimal_bytes(bit_and(be_value(a@), be_value(b@))),
{
    (BigUint::from_bytes_be(a) & BigUint::from_bytes_be(b)).to_bytes_be()
}

} // verus!
