use asset_ledger::error::LedgerError;
use asset_ledger::ledger::{appended, found_asset, found_event, moved_balances, opened_log};
use asset_ledger::records::{Asset, AssetUpdate};
use asset_ledger::types::{Identity, UniqueAssetId};
use ic_stable_structures::log::{InitError, WriteError};

#[test]
fn missing_record_is_not_found() {
    assert_eq!(found_asset(None), Err(LedgerError::NotFound));
    assert_eq!(found_event(None), Err(LedgerError::NotFound));
}

#[test]
fn malformed_record_is_corrupt() {
    assert_eq!(found_asset(Some(vec![1, 2, 3])), Err(LedgerError::Corrupt));
    assert_eq!(found_event(Some(vec![0, 1, 0, 0])), Err(LedgerError::Corrupt));
}

#[test]
fn stored_record_is_found() {
    let issuer = Identity::from_slice(&[4]).unwrap();
    let asset = Asset { created_on: 3, issuer, amendment_count: 0 };
    assert_eq!(found_asset(Some(asset.to_bytes())), Ok(asset));
    let event = AssetUpdate { asset_id: UniqueAssetId::parse("0102").unwrap(), event_id: 1 };
    assert_eq!(found_event(Some(event.to_bytes())), Ok(event));
}

#[test]
fn failed_append_is_a_write_error() {
    assert_eq!(appended(Ok(4)), Ok(4));
    assert_eq!(
        appended(Err(WriteError::GrowFailed { current_size: 1, delta: 1 })),
        Err(LedgerError::StorageWrite)
    );
}

#[test]
fn failed_log_init_is_an_init_error() {
    assert!(matches!(opened_log(Err(InitError::InvalidIndex)), Err(LedgerError::StorageInit)));
    assert!(matches!(
        opened_log(Err(InitError::IncompatibleDataVersion {
            last_supported_version: 1,
            decoded_version: 2
        })),
        Err(LedgerError::StorageInit)
    ));
}

#[test]
fn moved_balances_formula() {
    assert_eq!(moved_balances(Some(1000), Some(0), 300), Ok((700, 300)));
    assert_eq!(moved_balances(Some(1000), None, 1000), Ok((0, 1000)));
    assert_eq!(moved_balances(Some(5), Some(u128::MAX - 5), 5), Ok((0, u128::MAX)));
    assert_eq!(moved_balances(Some(0), None, 0), Ok((0, 0)));
}

#[test]
fn moved_balances_errors() {
    assert_eq!(moved_balances(None, Some(1), 0), Err(LedgerError::NotFound));
    assert_eq!(moved_balances(None, Some(u128::MAX), 1), Err(LedgerError::NotFound));
    assert_eq!(moved_balances(Some(1), None, 2), Err(LedgerError::Arithmetic));
    assert_eq!(moved_balances(Some(1), Some(u128::MAX), 1), Err(LedgerError::Arithmetic));
}
