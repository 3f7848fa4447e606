//! The text form of an identity.

use vstd::prelude::*;
use crate::types::MAX_IDENTITY_LEN;
use ic_principal::Principal;

verus! {

/// The text that stands for the identity with the given raw bytes.
pub uninterp spec fn principal_text(bytes: Seq<u8>) -> Seq<char>;

/// Makes a `Principal` of the bytes with `Principal::from_slice`, which
/// takes up to `MAX_IDENTITY_LEN` of them, and writes it with `Principal::to_text`: a
/// checksum and the bytes in base 32, lower case, in groups of five.
#[verifier::external_body]
pub(crate) fn principal_to_text(bytes: &Vec<u8>) -> (r: String)
    requires
        bytes@.len() <= MAX_IDENTITY_LEN,
    ensures
        r@ == principal_text(bytes@),
{
    Principal::from_slice(bytes).to_text()
}

} // verus!
