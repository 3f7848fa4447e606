//! Identities, asset ids and account keys.

use vstd::prelude::*;
use crate::bigint::{be_bit_and, be_normalize, be_shift_right};
use crate::decimal::{be_decimal_text, grouped_decimal};
use crate::error::LedgerError;
use crate::hex_text::{hex_bytes, hex_decode, is_hex_text};
use crate::key_laws::lemma_narrow_asset_key_splits;
use crate::magnitude::{
    be_value, is_minimal, lemma_be_value_push, lemma_bit_and_low_mask, lemma_div_bound,
    lemma_minimal_bytes_len, lemma_minimal_bytes_unique, lemma_minimal_bytes_value,
    lemma_pow256_adds, lemma_pow256_positive, lemma_pow2_of_bytes, minimal_bytes, pow256,
};
use crate::principal_text::{principal_text, principal_to_text};

verus! {

/// The most bytes an identity can have.
pub const MAX_IDENTITY_LEN: usize = 29;

/// The width, in bytes, of the asset id inside an account key.
pub const ASSET_ID_WIDTH: usize = 12;

/// The most bytes the stored form of an asset id is meant to take.
pub const ASSET_ID_MAX_SIZE: usize = 29;

/// The most bytes the stored form of an account key is meant to take.
pub const ACCOUNT_ID_MAX_SIZE: usize = 62;

/// An opaque identity of an owner or issuer: at most `MAX_IDENTITY_LEN` raw
/// bytes.
#[derive(Debug, PartialEq, Eq)]
pub struct Identity {
    bytes: Vec<u8>,
}

impl View for Identity {
    type V = Seq<u8>;

    closed spec fn view(&self) -> Seq<u8> {
        self.bytes@
    }
}

impl Clone for Identity {
    fn clone(&self) -> (r: Self)
        ensures
            r@ == self@,
    {
        proof {
            use_type_invariant(self);
        }
        Identity { bytes: self.bytes.clone() }
    }
}

impl Identity {
    #[verifier::type_invariant]
    spec fn well_formed(self) -> bool {
        self.bytes@.len() <= MAX_IDENTITY_LEN
    }

    /// The identity with the given raw bytes, if they are few enough.
    pub fn from_slice(bytes: &[u8]) -> (r: Option<Identity>)
        ensures
            r is Some <==> bytes@.len() <= MAX_IDENTITY_LEN,
            r matches Some(id) ==> id@ == bytes@,
    {
        if bytes.len() > MAX_IDENTITY_LEN {
            return None;
        }
        let mut copy: Vec<u8> = Vec::new();
        let mut i: usize = 0;
        while i < bytes.len()
            invariant
                i <= bytes@.len(),
                copy@ == bytes@.subrange(0, i as int),
            decreases bytes@.len() - i,
        {
            copy.push(bytes[i]);
            i = i + 1;
            assert(copy@ == bytes@.subrange(0, i as int));
        }
        assert(bytes@.subrange(0, bytes@.len() as int) == bytes@);
        Some(Identity { bytes: copy })
    }

    /// The identity as text.
    pub fn to_text(&self) -> (r: String)
        ensures
            r@ == principal_text(self@),
    {
        proof {
            use_type_invariant(self);
        }
        principal_to_text(&self.bytes)
    }

    /// A copy of the raw bytes.
    pub fn to_vec(&self) -> (r: Vec<u8>)
        ensures
            r@ == self@,
            r@.len() <= MAX_IDENTITY_LEN,
    {
        proof {
            use_type_invariant(self);
        }
        self.bytes.clone()
    }

    /// The raw bytes.
    pub fn as_slice(&self) -> (r: &[u8])
        ensures
            r@ == self@,
            r@.len() <= MAX_IDENTITY_LEN,
    {
        proof {
            use_type_invariant(self);
        }
        self.bytes.as_slice()
    }
}

/// The identifier of an asset: a natural number of any size. Two ids are
/// equal, and ordered, as their numbers are.
#[derive(Debug)]
pub struct UniqueAssetId {
    /// The number in its shortest big-endian form.
    bytes: Vec<u8>,
}

impl View for UniqueAssetId {
    type V = nat;

    closed spec fn view(&self) -> nat {
        be_value(self.bytes@)
    }
}

impl Clone for UniqueAssetId {
    fn clone(&self) -> (r: Self)
        ensures
            r@ == self@,
    {
        proof {
            use_type_invariant(self);
        }
        UniqueAssetId { bytes: self.bytes.clone() }
    }
}

/// Decodes hexadecimal text and reads the bytes as one big-endian number,
/// which it returns in its shortest big-endian form.
pub fn big_uint_parse_hex(hex: &str) -> (r: Result<Vec<u8>, LedgerError>)
    ensures
        match r {
            Ok(bytes) => is_hex_text(hex@) && bytes@ == minimal_bytes(be_value(hex_bytes(hex@))),
            Err(e) => !is_hex_text(hex@) && e == LedgerError::Parse,
        },
{
    match hex_decode(hex) {
        Ok(bytes) => Ok(be_normalize(&bytes)),
        Err(_) => Err(LedgerError::Parse),
    }
}

impl UniqueAssetId {
    #[verifier::type_invariant]
    spec fn well_formed(self) -> bool {
        is_minimal(self.bytes@)
    }

    /// The asset id whose value the big-endian bytes `value` spell.
    pub fn new(value: &Vec<u8>) -> (r: UniqueAssetId)
        ensures
            r@ == be_value(value@),
    {
        let bytes = be_normalize(value);
        proof {
            lemma_minimal_bytes_value(be_value(value@));
        }
        UniqueAssetId { bytes }
    }

    /// Reads an asset id from hexadecimal text: the digits, taken as one
    /// big-endian number. Text that is not an even number of hexadecimal
    /// digits is refused.
    pub fn parse(hex: &str) -> (r: Result<UniqueAssetId, LedgerError>)
        ensures
            match r {
                Ok(id) => is_hex_text(hex@) && id@ == be_value(hex_bytes(hex@)),
                Err(e) => !is_hex_text(hex@) && e == LedgerError::Parse,
            },
    {
        match big_uint_parse_hex(hex) {
            Ok(bytes) => {
                proof {
                    lemma_minimal_bytes_value(be_value(hex_bytes(hex@)));
                }
                Ok(UniqueAssetId { bytes })
            },
            Err(e) => Err(e),
        }
    }

    /// The id in decimal, in groups of three digits.
    pub fn to_string(&self) -> (r: String)
        ensures
            r@ == grouped_decimal(self@),
    {
        be_decimal_text(&self.bytes)
    }

    /// The number's shortest big-endian bytes.
    pub fn as_bytes(&self) -> (r: &Vec<u8>)
        ensures
            r@ == minimal_bytes(self@),
            is_minimal(r@),
            be_value(r@) == self@,
    {
        proof {
            use_type_invariant(self);
            lemma_minimal_bytes_unique(self.bytes@);
        }
        &self.bytes
    }

    /// The stored form of the id: its shortest big-endian bytes. It keeps
    /// to `ASSET_ID_MAX_SIZE` exactly for the ids below `256^29`.
    pub fn to_bytes(&self) -> (r: Vec<u8>)
        ensures
            r@ == minimal_bytes(self@),
            r@.len() <= ASSET_ID_MAX_SIZE <==> self@ < pow256(ASSET_ID_MAX_SIZE as nat),
    {
        proof {
            use_type_invariant(self);
            lemma_minimal_bytes_unique(self.bytes@);
            lemma_minimal_bytes_len(self@, ASSET_ID_MAX_SIZE as nat);
        }
        self.bytes.clone()
    }

    /// Reads the stored form back. Bytes that are not the shortest form of
    /// a number are refused.
    pub fn from_bytes(bytes: &Vec<u8>) -> (r: Option<UniqueAssetId>)
        ensures
            r is Some <==> is_minimal(bytes@),
            r matches Some(id) ==> id@ == be_value(bytes@),
    {
        if bytes.len() >= 1 && (bytes.len() == 1 || bytes[0] != 0) {
            Some(UniqueAssetId { bytes: bytes.clone() })
        } else {
            None
        }
    }
}

/// The account key for an owner and an asset: the owner's bytes followed by
/// the asset id's shortest big-endian bytes, read as one big-endian number.
pub open spec fn account_key(owner: Seq<u8>, asset: nat) -> nat {
    be_value(owner + minimal_bytes(asset))
}

/// The owner part of an account key: the shortest big-endian bytes of what
/// lies above the low `ASSET_ID_WIDTH` bytes.
pub open spec fn key_owner(key: nat) -> Seq<u8> {
    minimal_bytes(key / pow256(ASSET_ID_WIDTH as nat))
}

/// The asset part of an account key: its low `ASSET_ID_WIDTH` bytes.
pub open spec fn key_asset(key: nat) -> nat {
    key % pow256(ASSET_ID_WIDTH as nat)
}

/// The key of one owner's account in one asset. Two keys are equal, and
/// ordered, as their numbers are.
#[derive(Debug)]
pub struct AccountId {
    /// The key in its shortest big-endian form.
    bytes: Vec<u8>,
}

impl View for AccountId {
    type V = nat;

    closed spec fn view(&self) -> nat {
        be_value(self.bytes@)
    }
}

impl Clone for AccountId {
    fn clone(&self) -> (r: Self)
        ensures
            r@ == self@,
    {
        proof {
            use_type_invariant(self);
        }
        AccountId { bytes: self.bytes.clone() }
    }
}

/// The mask that keeps the asset part of an account key: `ASSET_ID_WIDTH`
/// bytes with every bit set.
fn asset_id_mask() -> (r: Vec<u8>)
    ensures
        be_value(r@) == pow256(ASSET_ID_WIDTH as nat) - 1,
{
    let mut mask: Vec<u8> = Vec::new();
    let mut i: usize = 0;
    while i < ASSET_ID_WIDTH
        invariant
            i <= ASSET_ID_WIDTH,
            mask@.len() == i,
            be_value(mask@) == pow256(i as nat) - 1,
        decreases ASSET_ID_WIDTH - i,
    {
        proof {
            lemma_be_value_push(mask@, 0xff);
        }
        mask.push(0xff);
        i = i + 1;
    }
    mask
}

impl AccountId {
    #[verifier::type_invariant]
    spec fn well_formed(self) -> bool {
        is_minimal(self.bytes@)
    }

    /// The key of `principal`'s account in the asset `unique_asset_id`.
    /// With an asset id of no more than `ASSET_ID_WIDTH` bytes the key can
    /// be split again.
    pub fn new(principal: &Identity, unique_asset_id: &UniqueAssetId) -> (r: AccountId)
        ensures
            r@ == account_key(principal@, unique_asset_id@),
            unique_asset_id@ < pow256(ASSET_ID_WIDTH as nat) ==> key_owner(r@).len()
                <= MAX_IDENTITY_LEN,
    {
        proof {
            use_type_invariant(principal);
            use_type_invariant(unique_asset_id);
            lemma_minimal_bytes_unique(unique_asset_id.bytes@);
            if unique_asset_id@ < pow256(ASSET_ID_WIDTH as nat) {
                lemma_narrow_asset_key_splits(principal@, unique_asset_id@);
            }
        }
        let mut a_bytes: Vec<u8> = principal.bytes.clone();
        let mut u_bytes: Vec<u8> = unique_asset_id.bytes.clone();
        a_bytes.append(&mut u_bytes);
        let bytes = be_normalize(&a_bytes);
        proof {
            lemma_minimal_bytes_value(be_value(a_bytes@));
        }
        AccountId { bytes }
    }

    /// Whether the owner part of the key is short enough to be an identity.
    pub fn can_split(&self) -> (r: bool)
        ensures
            r == (key_owner(self@).len() <= MAX_IDENTITY_LEN),
    {
        proof {
            use_type_invariant(self);
            lemma_minimal_bytes_unique(self.bytes@);
            let width = ASSET_ID_WIDTH as nat;
            let most = MAX_IDENTITY_LEN as nat;
            lemma_minimal_bytes_len(self@, most + width);
            lemma_minimal_bytes_len(self@ / pow256(width), most);
            lemma_pow256_adds(most, width);
            lemma_pow256_positive(width);
            lemma_div_bound(self@, pow256(width), pow256(most));
        }
        self.bytes.len() <= MAX_IDENTITY_LEN + ASSET_ID_WIDTH
    }

    /// Takes the key apart: the asset id is its low `ASSET_ID_WIDTH` bytes,
    /// the owner is the shortest big-endian form of what lies above them.
    pub fn split(&self) -> (r: (Identity, UniqueAssetId))
        requires
            key_owner(self@).len() <= MAX_IDENTITY_LEN,
        ensures
            r.0@ == key_owner(self@),
            r.1@ == key_asset(self@),
    {
        let unique_asset_id_mask = asset_id_mask();
        let principal_shift: u32 = 12 * 8;
        proof {
            lemma_pow2_of_bytes(ASSET_ID_WIDTH as nat);
            lemma_bit_and_low_mask(self@, 96);
            lemma_minimal_bytes_value(key_asset(self@));
        }
        let principal_bytes = be_shift_right(&self.bytes, principal_shift);
        let principal = Identity { bytes: principal_bytes };
        let asset_bytes = be_bit_and(&self.bytes, &unique_asset_id_mask);
        let unique_asset_id = UniqueAssetId { bytes: asset_bytes };
        (principal, unique_asset_id)
    }

    /// `split`, or nothing where the owner part is too long for an identity.
    pub fn try_split(&self) -> (r: Option<(Identity, UniqueAssetId)>)
        ensures
            r is Some <==> key_owner(self@).len() <= MAX_IDENTITY_LEN,
            r matches Some(parts) ==> parts.0@ == key_owner(self@) && parts.1@ == key_asset(
                self@,
            ),
    {
        if self.can_split() {
            Some(self.split())
        } else {
            None
        }
    }

    /// The number's shortest big-endian bytes.
    pub fn as_bytes(&self) -> (r: &Vec<u8>)
        ensures
            r@ == minimal_bytes(self@),
            is_minimal(r@),
            be_value(r@) == self@,
    {
        proof {
            use_type_invariant(self);
            lemma_minimal_bytes_unique(self.bytes@);
        }
        &self.bytes
    }

    /// The stored form of the key: its shortest big-endian bytes. It keeps
    /// to `ACCOUNT_ID_MAX_SIZE` exactly for the keys below `256^62`.
    pub fn to_bytes(&self) -> (r: Vec<u8>)
        ensures
            r@ == minimal_bytes(self@),
            r@.len() <= ACCOUNT_ID_MAX_SIZE <==> self@ < pow256(ACCOUNT_ID_MAX_SIZE as nat),
    {
        proof {
            use_type_invariant(self);
            lemma_minimal_bytes_unique(self.bytes@);
            lemma_minimal_bytes_len(self@, ACCOUNT_ID_MAX_SIZE as nat);
        }
        self.bytes.clone()
    }

    /// Reads the stored form back. Bytes that are not the shortest form of
    /// a number are refused.
    pub fn from_bytes(bytes: &Vec<u8>) -> (r: Option<AccountId>)
        ensures
            r is Some <==> is_minimal(bytes@),
            r matches Some(key) ==> key@ == be_value(bytes@),
    {
        if bytes.len() >= 1 && (bytes.len() == 1 || bytes[0] != 0) {
            Some(AccountId { bytes: bytes.clone() })
        } else {
            None
        }
    }
}

} // verus!
