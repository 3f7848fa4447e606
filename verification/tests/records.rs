use asset_ledger::codec::{copy_range, push_fixed, read_fixed};
use asset_ledger::records::{Asset, AssetUpdate, ASSET_MAX_SIZE};
use asset_ledger::types::{Identity, UniqueAssetId};

#[test]
fn asset_record_layout() {
    let asset = Asset {
        created_on: 0x0102030405060708,
        issuer: Identity::from_slice(&[0xaa, 0xbb]).unwrap(),
        amendment_count: 0x0a0b0c0d,
    };
    assert_eq!(
        asset.to_bytes(),
        vec![1, 2, 3, 4, 5, 6, 7, 8, 0x0a, 0x0b, 0x0c, 0x0d, 0xaa, 0xbb]
    );
}

#[test]
fn asset_record_reads_back() {
    let asset = Asset {
        created_on: u64::MAX,
        issuer: Identity::from_slice(&[9u8; 29]).unwrap(),
        amendment_count: u32::MAX,
    };
    let bytes = asset.to_bytes();
    assert_eq!(bytes.len(), 41);
    assert!(bytes.len() <= ASSET_MAX_SIZE);
    assert_eq!(Asset::from_bytes(&bytes), Some(asset.clone()));
}

#[test]
fn asset_record_with_empty_issuer_reads_back() {
    let issuer = Identity::from_slice(&[]).unwrap();
    let asset = Asset { created_on: 0, issuer, amendment_count: 0 };
    let bytes = asset.to_bytes();
    assert_eq!(bytes, vec![0u8; 12]);
    assert_eq!(Asset::from_bytes(&bytes), Some(asset));
}

#[test]
fn asset_record_of_wrong_length_is_refused() {
    assert_eq!(Asset::from_bytes(&vec![0u8; 11]), None);
    assert_eq!(Asset::from_bytes(&vec![0u8; 42]), None);
    assert_eq!(Asset::from_bytes(&vec![]), None);
}

#[test]
fn event_record_layout() {
    let event = AssetUpdate { asset_id: UniqueAssetId::parse("0A0B0C").unwrap(), event_id: 0x0102 };
    assert_eq!(event.to_bytes(), vec![1, 2, 0x0a, 0x0b, 0x0c]);
}

#[test]
fn event_record_reads_back() {
    let event = AssetUpdate {
        asset_id: UniqueAssetId::parse("F94E2AD9DD5CBBC041430001").unwrap(),
        event_id: 1,
    };
    let bytes = event.to_bytes();
    assert_eq!(bytes.len(), 14);
    assert_eq!(AssetUpdate::from_bytes(&bytes), Some(event.clone()));
}

#[test]
fn malformed_event_record_is_refused() {
    assert_eq!(AssetUpdate::from_bytes(&vec![0, 1]), None);
    assert_eq!(AssetUpdate::from_bytes(&vec![0, 1, 0, 5]), None);
    assert_eq!(AssetUpdate::from_bytes(&vec![]), None);
    assert!(AssetUpdate::from_bytes(&vec![0, 1, 0]).is_some());
}

#[test]
fn fixed_width_fields() {
    let mut out = vec![0xee];
    push_fixed(&mut out, 0x0102, 4);
    assert_eq!(out, vec![0xee, 0, 0, 1, 2]);
    push_fixed(&mut out, 0x01020304, 2);
    assert_eq!(out, vec![0xee, 0, 0, 1, 2, 3, 4]);
    push_fixed(&mut out, 7, 0);
    assert_eq!(out.len(), 7);
    assert_eq!(read_fixed(&out, 1, 4), 0x0102);
    assert_eq!(read_fixed(&out, 5, 2), 0x0304);
    assert_eq!(read_fixed(&out, 0, 0), 0);
    assert_eq!(read_fixed(&vec![0xff; 8], 0, 8), u64::MAX);
    assert_eq!(copy_range(&out, 1, 3), vec![0, 0]);
    assert_eq!(copy_range(&out, 2, 2), Vec::<u8>::new());
}

#[test]
fn event_record_bound_is_kept_by_ids_of_68_bytes() {
    let widest = AssetUpdate { asset_id: UniqueAssetId::new(&vec![0xff; 68]), event_id: 1 };
    assert_eq!(widest.to_bytes().len(), 70);
    let wider = AssetUpdate { asset_id: UniqueAssetId::new(&vec![1; 69]), event_id: 1 };
    assert_eq!(wider.to_bytes().len(), 71);
}
