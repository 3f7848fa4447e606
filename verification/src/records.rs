//! The records that the ledger stores, and their stored form.

use vstd::prelude::*;
use crate::codec::{copy_range, lemma_field_bounds, push_fixed, read_fixed};
use crate::magnitude::{
    be_value, fixed_bytes, is_minimal, lemma_be_value_bound, lemma_fixed_bytes_value,
    lemma_fixed_width_unique, lemma_minimal_bytes_len, lemma_minimal_bytes_unique,
    lemma_minimal_bytes_value, minimal_bytes, pow256,
};
use crate::types::{Identity, UniqueAssetId, MAX_IDENTITY_LEN};

verus! {

/// The most bytes the stored form of an asset record is meant to take.
pub const ASSET_MAX_SIZE: usize = 70;

/// The most bytes the stored form of an event is meant to take.
pub const ASSET_UPDATE_MAX_SIZE: usize = 70;

/// The bytes of an asset record before the issuer: eight for the creation
/// time and four for the amendment count.
pub const ASSET_HEADER_SIZE: usize = 12;

/// The bytes of an event before the asset id: two for the event code.
pub const ASSET_UPDATE_HEADER_SIZE: usize = 2;

/// What the registry knows of an asset.
#[derive(Debug, PartialEq, Eq)]
pub struct Asset {
    /// When the asset was created, as the caller's clock had it.
    pub created_on: u64,
    /// Who created it.
    pub issuer: Identity,
    /// How often it was amended; no operation amends yet.
    pub amendment_count: u32,
}

/// An asset record as a mathematical value.
pub struct AssetView {
    pub created_on: u64,
    pub issuer: Seq<u8>,
    pub amendment_count: u32,
}

impl View for Asset {
    type V = AssetView;

    open spec fn view(&self) -> AssetView {
        AssetView {
            created_on: self.created_on,
            issuer: self.issuer@,
            amendment_count: self.amendment_count,
        }
    }
}

impl Clone for Asset {
    fn clone(&self) -> (r: Self)
        ensures
            r@ == self@,
    {
        Asset {
            created_on: self.created_on,
            issuer: self.issuer.clone(),
            amendment_count: self.amendment_count,
        }
    }
}

/// The stored form of an asset record: the creation time in eight bytes,
/// the amendment count in four, both big-endian, then the issuer's bytes.
pub open spec fn asset_record(a: AssetView) -> Seq<u8> {
    fixed_bytes(a.created_on as nat, 8) + fixed_bytes(a.amendment_count as nat, 4) + a.issuer
}

/// The asset record that `b` is the stored form of, if it is one.
pub open spec fn parse_asset_record(b: Seq<u8>) -> Option<AssetView> {
    if ASSET_HEADER_SIZE <= b.len() <= ASSET_HEADER_SIZE + MAX_IDENTITY_LEN {
        Some(
            AssetView {
                created_on: be_value(b.subrange(0, 8)) as u64,
                issuer: b.subrange(ASSET_HEADER_SIZE as int, b.len() as int),
                amendment_count: be_value(b.subrange(8, 12)) as u32,
            },
        )
    } else {
        None
    }
}

/// Storing an asset record and reading it back gives the same record.
pub proof fn lemma_asset_record_reads_back(a: AssetView)
    requires
        a.issuer.len() <= MAX_IDENTITY_LEN,
    ensures
        parse_asset_record(asset_record(a)) == Some(a),
        asset_record(a).len() <= ASSET_MAX_SIZE,
{
    let first = fixed_bytes(a.created_on as nat, 8);
    let second = fixed_bytes(a.amendment_count as nat, 4);
    let b = asset_record(a);
    lemma_fixed_bytes_value(a.created_on as nat, 8);
    lemma_fixed_bytes_value(a.amendment_count as nat, 4);
    lemma_field_bounds();
    assert(b.subrange(0, 8) == first);
    assert(b.subrange(8, 12) == second);
    assert(b.subrange(ASSET_HEADER_SIZE as int, b.len() as int) == a.issuer);
    assert((a.created_on as nat) % 0x1_0000_0000_0000_0000 == a.created_on as nat);
    assert((a.amendment_count as nat) % 0x1_0000_0000 == a.amendment_count as nat);
}

/// Bytes that read as an asset record are the stored form of that record.
pub proof fn lemma_asset_record_is_unique(b: Seq<u8>)
    requires
        parse_asset_record(b) is Some,
    ensures
        asset_record(parse_asset_record(b)->Some_0) == b,
{
    let a = parse_asset_record(b)->Some_0;
    let first = b.subrange(0, 8);
    let second = b.subrange(8, 12);
    lemma_fixed_width_unique(first);
    lemma_fixed_width_unique(second);
    lemma_be_value_bound(first);
    lemma_be_value_bound(second);
    lemma_field_bounds();
    assert(asset_record(a) == b);
}

impl Asset {
    /// The stored form of the record.
    pub fn to_bytes(&self) -> (r: Vec<u8>)
        ensures
            r@ == asset_record(self@),
            parse_asset_record(r@) == Some(self@),
            r@.len() <= ASSET_MAX_SIZE,
    {
        let mut out: Vec<u8> = Vec::new();
        push_fixed(&mut out, self.created_on, 8);
        push_fixed(&mut out, self.amendment_count as u64, 4);
        let mut issuer = self.issuer.to_vec();
        out.append(&mut issuer);
        proof {
            assert(out@ == asset_record(self@));
            lemma_asset_record_reads_back(self@);
        }
        out
    }

    /// Reads a stored form back. Bytes of any other length than a header
    /// and an identity can have are refused.
    pub fn from_bytes(bytes: &Vec<u8>) -> (r: Option<Asset>)
        ensures
            match r {
                Some(a) => parse_asset_record(bytes@) == Some(a@),
                None => parse_asset_record(bytes@) is None,
            },
    {
        let n = bytes.len();
        if n < ASSET_HEADER_SIZE || n > ASSET_HEADER_SIZE + MAX_IDENTITY_LEN {
            return None;
        }
        let created_on = read_fixed(bytes, 0, 8);
        let amendment_count = read_fixed(bytes, 8, 4);
        let issuer_bytes = copy_range(bytes, ASSET_HEADER_SIZE, n);
        proof {
            lemma_be_value_bound(bytes@.subrange(8, 12));
            lemma_field_bounds();
        }
        match Identity::from_slice(issuer_bytes.as_slice()) {
            Some(issuer) => Some(
                Asset { created_on, issuer, amendment_count: amendment_count as u32 },
            ),
            None => None,
        }
    }
}

/// One entry of the event log: something happened to an asset.
#[derive(Debug, PartialEq, Eq)]
pub struct AssetUpdate {
    /// The asset it happened to.
    pub asset_id: UniqueAssetId,
    /// What happened; 1 stands for "created".
    pub event_id: u16,
}

/// An event as a mathematical value.
pub struct AssetUpdateView {
    pub asset_id: nat,
    pub event_id: u16,
}

impl View for AssetUpdate {
    type V = AssetUpdateView;

    open spec fn view(&self) -> AssetUpdateView {
        AssetUpdateView { asset_id: self.asset_id@, event_id: self.event_id }
    }
}

impl Clone for AssetUpdate {
    fn clone(&self) -> (r: Self)
        ensures
            r@ == self@,
    {
        AssetUpdate { asset_id: self.asset_id.clone(), event_id: self.event_id }
    }
}

/// The stored form of an event: the event code in two bytes, big-endian,
/// then the asset id in its shortest big-endian form.
pub open spec fn asset_update_record(e: AssetUpdateView) -> Seq<u8> {
    fixed_bytes(e.event_id as nat, 2) + minimal_bytes(e.asset_id)
}

/// The event that `b` is the stored form of, if it is one.
pub open spec fn parse_asset_update_record(b: Seq<u8>) -> Option<AssetUpdateView> {
    if b.len() > ASSET_UPDATE_HEADER_SIZE && is_minimal(
        b.subrange(ASSET_UPDATE_HEADER_SIZE as int, b.len() as int),
    ) {
        Some(
            AssetUpdateView {
                asset_id: be_value(b.subrange(ASSET_UPDATE_HEADER_SIZE as int, b.len() as int)),
                event_id: be_value(b.subrange(0, 2)) as u16,
            },
        )
    } else {
        None
    }
}

/// Storing an event and reading it back gives the same event.
pub proof fn lemma_asset_update_record_reads_back(e: AssetUpdateView)
    ensures
        parse_asset_update_record(asset_update_record(e)) == Some(e),
{
    let first = fixed_bytes(e.event_id as nat, 2);
    let b = asset_update_record(e);
    lemma_fixed_bytes_value(e.event_id as nat, 2);
    lemma_minimal_bytes_value(e.asset_id);
    lemma_field_bounds();
    assert(b.subrange(0, 2) == first);
    assert(b.subrange(ASSET_UPDATE_HEADER_SIZE as int, b.len() as int) == minimal_bytes(
        e.asset_id,
    ));
    assert((e.event_id as nat) % 0x1_0000 == e.event_id as nat);
}

/// Bytes that read as an event are the stored form of that event.
pub proof fn lemma_asset_update_record_is_unique(b: Seq<u8>)
    requires
        parse_asset_update_record(b) is Some,
    ensures
        asset_update_record(parse_asset_update_record(b)->Some_0) == b,
{
    let e = parse_asset_update_record(b)->Some_0;
    let first = b.subrange(0, 2);
    let rest = b.subrange(ASSET_UPDATE_HEADER_SIZE as int, b.len() as int);
    lemma_fixed_width_unique(first);
    lemma_be_value_bound(first);
    lemma_minimal_bytes_unique(rest);
    lemma_field_bounds();
    assert(asset_update_record(e) == b);
}

impl AssetUpdate {
    /// The stored form of the event. It keeps to `ASSET_UPDATE_MAX_SIZE`
    /// exactly for the asset ids that fit into the bytes after the event
    /// code.
    pub fn to_bytes(&self) -> (r: Vec<u8>)
        ensures
            r@ == asset_update_record(self@),
            parse_asset_update_record(r@) == Some(self@),
            r@.len() <= ASSET_UPDATE_MAX_SIZE <==> self@.asset_id < pow256(
                (ASSET_UPDATE_MAX_SIZE - ASSET_UPDATE_HEADER_SIZE) as nat,
            ),
    {
        let mut out: Vec<u8> = Vec::new();
        push_fixed(&mut out, self.event_id as u64, 2);
        let mut id_bytes = self.asset_id.to_bytes();
        out.append(&mut id_bytes);
        proof {
            assert(out@ == asset_update_record(self@));
            lemma_asset_update_record_reads_back(self@);
            lemma_fixed_bytes_value(self.event_id as nat, 2);
            lemma_minimal_bytes_len(
                self@.asset_id,
                (ASSET_UPDATE_MAX_SIZE - ASSET_UPDATE_HEADER_SIZE) as nat,
            );
        }
        out
    }

    /// Reads a stored form back. Bytes without an asset id in its shortest
    /// form after the event code are refused.
    pub fn from_bytes(bytes: &Vec<u8>) -> (r: Option<AssetUpdate>)
        ensures
            match r {
                Some(e) => parse_asset_update_record(bytes@) == Some(e@),
                None => parse_asset_update_record(bytes@) is None,
            },
    {
        let n = bytes.len();
        if n <= ASSET_UPDATE_HEADER_SIZE {
            return None;
        }
        let event_id = read_fixed(bytes, 0, 2);
        let id_bytes = copy_range(bytes, ASSET_UPDATE_HEADER_SIZE, n);
        proof {
            lemma_be_value_bound(bytes@.subrange(0, 2));
            lemma_field_bounds();
        }
        match UniqueAssetId::from_bytes(&id_bytes) {
            Some(asset_id) => Some(AssetUpdate { asset_id, event_id: event_id as u16 }),
            None => None,
        }
    }
}

} // verus!
