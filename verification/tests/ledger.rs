use asset_ledger::error::LedgerError;
use asset_ledger::ledger::Ledger;
use asset_ledger::records::{Asset, AssetUpdate};
use asset_ledger::types::{Identity, UniqueAssetId};

const ASSET: &str = "F94E2AD9DD5CBBC041430001";
const OTHER_ASSET: &str = "F94E2AD9DD5CBBC041430002";

fn owner_a() -> Identity {
    Identity::from_slice(&[0xa1, 0xa2, 0xa3]).unwrap()
}

fn owner_b() -> Identity {
    Identity::from_slice(&[0xb1, 0xb2, 0xb3]).unwrap()
}

fn fresh() -> Ledger {
    Ledger::open().unwrap()
}

#[test]
fn fresh_ledger_is_empty() {
    let ledger = fresh();
    assert_eq!(ledger.get_event_count(), 0);
    assert_eq!(ledger.total_tokens(ASSET), Ok(0));
    assert_eq!(ledger.account_tokens(&owner_a(), ASSET), Ok(0));
    assert_eq!(ledger.get_asset(ASSET), Err(LedgerError::NotFound));
    assert_eq!(ledger.get_event(0), Err(LedgerError::NotFound));
}

#[test]
fn created_asset_is_found_and_logged() {
    let mut ledger = fresh();
    assert_eq!(ledger.create_asset(&owner_a(), 1_700_000_000, ASSET), Ok(()));
    assert_eq!(
        ledger.get_asset(ASSET),
        Ok(Asset { created_on: 1_700_000_000, issuer: owner_a(), amendment_count: 0 })
    );
    assert_eq!(ledger.get_event_count(), 1);
    assert_eq!(
        ledger.get_event(0),
        Ok(AssetUpdate { asset_id: UniqueAssetId::parse(ASSET).unwrap(), event_id: 1 })
    );
}

#[test]
fn asset_is_found_under_any_spelling_of_its_id() {
    let mut ledger = fresh();
    ledger.create_asset(&owner_a(), 5, "00ff").unwrap();
    assert!(ledger.get_asset("FF").is_ok());
    assert!(ledger.get_asset("0000Ff").is_ok());
    assert_eq!(ledger.get_asset("FF00"), Err(LedgerError::NotFound));
}

#[test]
fn creating_an_asset_again_replaces_it_and_logs_again() {
    let mut ledger = fresh();
    ledger.create_asset(&owner_a(), 10, ASSET).unwrap();
    ledger.create_asset(&owner_b(), 20, ASSET).unwrap();
    assert_eq!(
        ledger.get_asset(ASSET),
        Ok(Asset { created_on: 20, issuer: owner_b(), amendment_count: 0 })
    );
    assert_eq!(ledger.get_event_count(), 2);
    assert_eq!(ledger.get_event(0), ledger.get_event(1));
}

#[test]
fn asset_never_created_is_not_found() {
    let mut ledger = fresh();
    ledger.create_asset(&owner_a(), 10, ASSET).unwrap();
    ledger.create_tokens(&owner_a(), OTHER_ASSET, 5).unwrap();
    assert_eq!(ledger.get_asset(OTHER_ASSET), Err(LedgerError::NotFound));
}

#[test]
fn malformed_asset_id_is_a_parse_error_everywhere() {
    let mut ledger = fresh();
    assert_eq!(ledger.create_asset(&owner_a(), 1, "xyz"), Err(LedgerError::Parse));
    assert_eq!(ledger.get_asset("1"), Err(LedgerError::Parse));
    assert_eq!(ledger.create_tokens(&owner_a(), "0g", 1), Err(LedgerError::Parse));
    assert_eq!(ledger.total_tokens("-1"), Err(LedgerError::Parse));
    assert_eq!(ledger.account_tokens(&owner_a(), "abc"), Err(LedgerError::Parse));
    assert_eq!(
        ledger.transfer_tokens(&owner_a(), &owner_b(), "  ", 1),
        Err(LedgerError::Parse)
    );
    assert_eq!(ledger.get_event_count(), 0);
}

#[test]
fn created_tokens_set_total_and_balance() {
    let mut ledger = fresh();
    assert_eq!(ledger.create_tokens(&owner_a(), ASSET, 1000), Ok(()));
    assert_eq!(ledger.total_tokens(ASSET), Ok(1000));
    assert_eq!(ledger.account_tokens(&owner_a(), ASSET), Ok(1000));
    assert_eq!(ledger.account_tokens(&owner_b(), ASSET), Ok(0));
    assert_eq!(ledger.total_tokens(OTHER_ASSET), Ok(0));
}

#[test]
fn creating_tokens_again_overwrites() {
    let mut ledger = fresh();
    ledger.create_tokens(&owner_a(), ASSET, 1000).unwrap();
    ledger.create_tokens(&owner_a(), ASSET, 500).unwrap();
    assert_eq!(ledger.total_tokens(ASSET), Ok(500));
    assert_eq!(ledger.account_tokens(&owner_a(), ASSET), Ok(500));
}

#[test]
fn creating_tokens_by_another_owner_breaks_the_sum() {
    let mut ledger = fresh();
    ledger.create_tokens(&owner_a(), ASSET, 1000).unwrap();
    ledger.create_tokens(&owner_b(), ASSET, 5).unwrap();
    assert_eq!(ledger.total_tokens(ASSET), Ok(5));
    assert_eq!(ledger.account_tokens(&owner_a(), ASSET), Ok(1000));
    assert_eq!(ledger.account_tokens(&owner_b(), ASSET), Ok(5));
}

#[test]
fn transfer_moves_the_amount_and_keeps_the_total() {
    let mut ledger = fresh();
    ledger.create_tokens(&owner_a(), ASSET, 1000).unwrap();
    assert_eq!(ledger.transfer_tokens(&owner_a(), &owner_b(), ASSET, 300), Ok(()));
    assert_eq!(ledger.account_tokens(&owner_a(), ASSET), Ok(700));
    assert_eq!(ledger.account_tokens(&owner_b(), ASSET), Ok(300));
    assert_eq!(ledger.total_tokens(ASSET), Ok(1000));
    assert_eq!(ledger.get_event_count(), 0);
}

#[test]
fn transfer_of_whole_balance_leaves_a_zero_account() {
    let mut ledger = fresh();
    ledger.create_tokens(&owner_a(), ASSET, 10).unwrap();
    ledger.transfer_tokens(&owner_a(), &owner_b(), ASSET, 10).unwrap();
    assert_eq!(ledger.account_tokens(&owner_a(), ASSET), Ok(0));
    assert_eq!(ledger.transfer_tokens(&owner_a(), &owner_b(), ASSET, 0), Ok(()));
    assert_eq!(
        ledger.transfer_tokens(&owner_a(), &owner_b(), ASSET, 1),
        Err(LedgerError::Arithmetic)
    );
}

#[test]
fn transfer_over_balance_is_an_arithmetic_error() {
    let mut ledger = fresh();
    ledger.create_tokens(&owner_a(), ASSET, 1000).unwrap();
    ledger.transfer_tokens(&owner_a(), &owner_b(), ASSET, 300).unwrap();
    assert_eq!(
        ledger.transfer_tokens(&owner_a(), &owner_b(), ASSET, 701),
        Err(LedgerError::Arithmetic)
    );
    assert_eq!(ledger.account_tokens(&owner_a(), ASSET), Ok(700));
    assert_eq!(ledger.account_tokens(&owner_b(), ASSET), Ok(300));
}

#[test]
fn transfer_past_128_bits_is_an_arithmetic_error() {
    let mut ledger = fresh();
    ledger.create_tokens(&owner_b(), ASSET, u128::MAX).unwrap();
    ledger.create_tokens(&owner_a(), ASSET, 1).unwrap();
    assert_eq!(
        ledger.transfer_tokens(&owner_a(), &owner_b(), ASSET, 1),
        Err(LedgerError::Arithmetic)
    );
    assert_eq!(ledger.account_tokens(&owner_a(), ASSET), Ok(1));
    assert_eq!(ledger.account_tokens(&owner_b(), ASSET), Ok(u128::MAX));
}

#[test]
fn transfer_from_an_owner_without_account_is_not_found() {
    let mut ledger = fresh();
    ledger.create_tokens(&owner_a(), ASSET, 1000).unwrap();
    assert_eq!(ledger.account_tokens(&owner_b(), ASSET), Ok(0));
    assert_eq!(
        ledger.transfer_tokens(&owner_b(), &owner_a(), ASSET, 0),
        Err(LedgerError::NotFound)
    );
    assert_eq!(
        ledger.transfer_tokens(&owner_a(), &owner_b(), OTHER_ASSET, 1),
        Err(LedgerError::NotFound)
    );
    assert_eq!(ledger.account_tokens(&owner_a(), ASSET), Ok(1000));
}

#[test]
fn transfer_to_oneself_writes_the_receiving_side_last() {
    let mut ledger = fresh();
    ledger.create_tokens(&owner_a(), ASSET, 100).unwrap();
    assert_eq!(ledger.transfer_tokens(&owner_a(), &owner_a(), ASSET, 30), Ok(()));
    assert_eq!(ledger.account_tokens(&owner_a(), ASSET), Ok(130));
    assert_eq!(ledger.total_tokens(ASSET), Ok(100));
}

#[test]
fn event_beyond_the_log_is_not_found() {
    let mut ledger = fresh();
    ledger.create_asset(&owner_a(), 1, ASSET).unwrap();
    assert_eq!(ledger.get_event(1), Err(LedgerError::NotFound));
    assert_eq!(ledger.get_event(u64::MAX), Err(LedgerError::NotFound));
}

#[test]
fn log_is_append_only() {
    let mut ledger = fresh();
    ledger.create_asset(&owner_a(), 1, ASSET).unwrap();
    let first = ledger.get_event(0);
    ledger.create_asset(&owner_b(), 2, OTHER_ASSET).unwrap();
    ledger.create_tokens(&owner_a(), ASSET, 9).unwrap();
    ledger.transfer_tokens(&owner_a(), &owner_b(), ASSET, 4).unwrap();
    ledger.create_asset(&owner_b(), 3, ASSET).unwrap();
    assert_eq!(ledger.get_event(0), first);
    assert_eq!(ledger.get_event_count(), 3);
    assert_eq!(
        ledger.get_event(1),
        Ok(AssetUpdate { asset_id: UniqueAssetId::parse(OTHER_ASSET).unwrap(), event_id: 1 })
    );
}

#[test]
fn emitted_event_gets_the_next_index() {
    let mut ledger = fresh();
    let id = UniqueAssetId::parse(ASSET).unwrap();
    assert_eq!(ledger.emit_asset_update(&id, 7), Ok(0));
    assert_eq!(ledger.emit_asset_update(&id, 8), Ok(1));
    assert_eq!(ledger.get_event(1), Ok(AssetUpdate { asset_id: id, event_id: 8 }));
    assert_eq!(ledger.get_asset(ASSET), Err(LedgerError::NotFound));
}

#[test]
fn many_accounts_and_assets_stay_apart() {
    let mut ledger = fresh();
    for i in 0..200u32 {
        let hex = format!("{:024X}", 0xF000_0000_0000_0000_0000_0000u128 + i as u128);
        ledger.create_tokens(&owner_a(), &hex, i as u128).unwrap();
        ledger.create_asset(&owner_b(), i as u64, &hex).unwrap();
    }
    for i in 0..200u32 {
        let hex = format!("{:024X}", 0xF000_0000_0000_0000_0000_0000u128 + i as u128);
        assert_eq!(ledger.total_tokens(&hex), Ok(i as u128));
        assert_eq!(ledger.account_tokens(&owner_a(), &hex), Ok(i as u128));
        assert_eq!(ledger.get_asset(&hex).unwrap().created_on, i as u64);
        let event = ledger.get_event(i as u64).unwrap();
        assert_eq!(event.asset_id, UniqueAssetId::parse(&hex).unwrap());
    }
    assert_eq!(ledger.get_event_count(), 200);
}

#[test]
fn owners_that_differ_by_a_leading_zero_share_an_account() {
    let mut ledger = fresh();
    let plain = Identity::from_slice(&[5]).unwrap();
    let padded = Identity::from_slice(&[0, 5]).unwrap();
    ledger.create_tokens(&plain, ASSET, 40).unwrap();
    assert_eq!(ledger.account_tokens(&padded, ASSET), Ok(40));
    assert_eq!(ledger.transfer_tokens(&plain, &padded, ASSET, 2), Ok(()));
    assert_eq!(ledger.account_tokens(&plain, ASSET), Ok(42));
}
