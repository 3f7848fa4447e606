use asset_ledger::error::LedgerError;
use asset_ledger::types::{big_uint_parse_hex, AccountId, Identity, UniqueAssetId};

const FULL_WIDTH_HEX: &str = "F94E2AD9DD5CBBC041430001";
const FULL_WIDTH_BYTES: [u8; 12] = [249, 78, 42, 217, 221, 92, 187, 192, 65, 67, 0, 1];

fn identity(bytes: &[u8]) -> Identity {
    Identity::from_slice(bytes).unwrap()
}

#[test]
fn parse_reads_hex_as_big_endian_number() {
    let id = UniqueAssetId::parse(FULL_WIDTH_HEX).unwrap();
    assert_eq!(id.to_bytes(), FULL_WIDTH_BYTES.to_vec());
}

#[test]
fn parse_accepts_both_cases() {
    let upper = UniqueAssetId::parse("ABCDEF01").unwrap();
    let lower = UniqueAssetId::parse("abcdef01").unwrap();
    let mixed = UniqueAssetId::parse("aBcDeF01").unwrap();
    assert_eq!(upper, lower);
    assert_eq!(upper, mixed);
    assert_eq!(upper.to_bytes(), vec![0xab, 0xcd, 0xef, 0x01]);
}

#[test]
fn parse_drops_leading_zero_bytes() {
    let id = UniqueAssetId::parse("000001").unwrap();
    assert_eq!(id.to_bytes(), vec![1]);
    assert_eq!(id, UniqueAssetId::parse("01").unwrap());
}

#[test]
fn parse_of_empty_text_is_zero() {
    let id = UniqueAssetId::parse("").unwrap();
    assert_eq!(id.to_bytes(), vec![0]);
    assert_eq!(id, UniqueAssetId::parse("00").unwrap());
}

#[test]
fn parse_refuses_odd_length() {
    assert_eq!(UniqueAssetId::parse("123"), Err(LedgerError::Parse));
}

#[test]
fn parse_refuses_non_hex_characters() {
    assert_eq!(UniqueAssetId::parse("zz"), Err(LedgerError::Parse));
    assert_eq!(UniqueAssetId::parse("0x12"), Err(LedgerError::Parse));
    assert_eq!(UniqueAssetId::parse("12 4"), Err(LedgerError::Parse));
    assert_eq!(UniqueAssetId::parse("é1"), Err(LedgerError::Parse));
}

#[test]
fn big_uint_parse_hex_gives_shortest_bytes() {
    assert_eq!(big_uint_parse_hex("0000FFEE"), Ok(vec![0xff, 0xee]));
    assert_eq!(big_uint_parse_hex("0000"), Ok(vec![0]));
    assert_eq!(big_uint_parse_hex("f"), Err(LedgerError::Parse));
}

#[test]
fn new_asset_id_normalizes_bytes() {
    let id = UniqueAssetId::new(&vec![0, 0, 1, 2]);
    assert_eq!(id.to_bytes(), vec![1, 2]);
    assert_eq!(UniqueAssetId::new(&vec![]).to_bytes(), vec![0]);
}

#[test]
fn asset_id_from_bytes_refuses_leading_zero() {
    assert_eq!(UniqueAssetId::from_bytes(&vec![0, 1]), None);
    assert_eq!(UniqueAssetId::from_bytes(&vec![]), None);
    assert_eq!(UniqueAssetId::from_bytes(&vec![0]), Some(UniqueAssetId::parse("00").unwrap()));
    assert_eq!(UniqueAssetId::from_bytes(&vec![1, 0]), Some(UniqueAssetId::parse("0100").unwrap()));
}

#[test]
fn to_string_groups_decimal_digits() {
    assert_eq!(UniqueAssetId::parse("12D687").unwrap().to_string(), "1_234_567");
    assert_eq!(UniqueAssetId::parse("03E7").unwrap().to_string(), "999");
    assert_eq!(UniqueAssetId::parse("03E8").unwrap().to_string(), "1_000");
    assert_eq!(UniqueAssetId::parse("00").unwrap().to_string(), "0");
    assert_eq!(
        UniqueAssetId::parse(FULL_WIDTH_HEX).unwrap().to_string(),
        "77_156_266_017_731_438_122_811_719_681"
    );
}

#[test]
fn identity_keeps_at_most_29_bytes() {
    assert!(Identity::from_slice(&[7u8; 29]).is_some());
    assert!(Identity::from_slice(&[7u8; 30]).is_none());
    assert_eq!(identity(&[1, 2, 3]).as_slice(), &[1, 2, 3]);
    assert_eq!(identity(&[]).to_vec(), Vec::<u8>::new());
}

#[test]
fn account_key_concatenates_owner_and_asset_bytes() {
    let id = UniqueAssetId::parse(FULL_WIDTH_HEX).unwrap();
    let key = AccountId::new(&identity(&[1, 2, 3]), &id);
    let mut expected = vec![1, 2, 3];
    expected.extend_from_slice(&FULL_WIDTH_BYTES);
    assert_eq!(key.to_bytes(), expected);
}

#[test]
fn split_returns_owner_and_full_width_asset() {
    let id = UniqueAssetId::parse(FULL_WIDTH_HEX).unwrap();
    let owner = identity(&[0xde, 0xad, 0xbe, 0xef, 0x01]);
    let key = AccountId::new(&owner, &id);
    let (back_owner, back_id) = key.try_split().unwrap();
    assert_eq!(back_owner, owner);
    assert_eq!(back_id, id);
}

#[test]
fn split_round_trips_longest_identity() {
    let id = UniqueAssetId::parse(FULL_WIDTH_HEX).unwrap();
    let owner = identity(&[0xff; 29]);
    let key = AccountId::new(&owner, &id);
    assert!(key.can_split());
    let (back_owner, back_id) = key.split();
    assert_eq!(back_owner, owner);
    assert_eq!(back_id, id);
}

#[test]
fn split_of_short_asset_id_loses_the_owner() {
    let id = UniqueAssetId::parse("01").unwrap();
    let owner = identity(&[0xab, 0xcd]);
    let key = AccountId::new(&owner, &id);
    assert_eq!(key.to_bytes(), vec![0xab, 0xcd, 0x01]);
    let (back_owner, back_id) = key.try_split().unwrap();
    assert_eq!(back_owner, identity(&[0]));
    assert_eq!(back_id, UniqueAssetId::parse("ABCD01").unwrap());
}

#[test]
fn split_of_wide_asset_id_bleeds_into_the_owner() {
    let id = UniqueAssetId::parse("01F94E2AD9DD5CBBC041430001").unwrap();
    let owner = identity(&[0xaa]);
    let key = AccountId::new(&owner, &id);
    let (back_owner, back_id) = key.try_split().unwrap();
    assert_eq!(back_owner, identity(&[0xaa, 0x01]));
    assert_eq!(back_id, UniqueAssetId::parse(FULL_WIDTH_HEX).unwrap());
    assert_ne!(back_id, id);
}

#[test]
fn split_drops_leading_zero_bytes_of_the_owner() {
    let id = UniqueAssetId::parse(FULL_WIDTH_HEX).unwrap();
    let key = AccountId::new(&identity(&[0, 5]), &id);
    let (back_owner, back_id) = key.try_split().unwrap();
    assert_eq!(back_owner, identity(&[5]));
    assert_eq!(back_id, id);
}

#[test]
fn split_turns_the_empty_owner_into_a_zero_byte() {
    let id = UniqueAssetId::parse(FULL_WIDTH_HEX).unwrap();
    let key = AccountId::new(&identity(&[]), &id);
    assert_eq!(key.to_bytes(), FULL_WIDTH_BYTES.to_vec());
    let (back_owner, back_id) = key.try_split().unwrap();
    assert_eq!(back_owner, identity(&[0]));
    assert_eq!(back_id, id);
}

#[test]
fn zero_owner_round_trips_with_any_narrow_asset() {
    let id = UniqueAssetId::parse("0102").unwrap();
    let owner = identity(&[0]);
    let key = AccountId::new(&owner, &id);
    let (back_owner, back_id) = key.try_split().unwrap();
    assert_eq!(back_owner, owner);
    assert_eq!(back_id, id);
}

#[test]
fn try_split_refuses_an_owner_part_over_29_bytes() {
    let id = UniqueAssetId::parse("01F94E2AD9DD5CBBC041430001").unwrap();
    let key = AccountId::new(&identity(&[0xff; 29]), &id);
    assert_eq!(key.to_bytes().len(), 42);
    assert!(!key.can_split());
    assert!(key.try_split().is_none());
}

#[test]
fn account_key_from_bytes_refuses_leading_zero() {
    assert_eq!(AccountId::from_bytes(&vec![0, 9]), None);
    let key = AccountId::from_bytes(&vec![9, 0]).unwrap();
    assert_eq!(key.to_bytes(), vec![9, 0]);
}

#[test]
fn clones_are_equal() {
    let id = UniqueAssetId::parse(FULL_WIDTH_HEX).unwrap();
    let owner = identity(&[1, 2]);
    let key = AccountId::new(&owner, &id);
    assert_eq!(id.clone(), id);
    assert_eq!(owner.clone(), owner);
    assert_eq!(key.clone(), key);
}

#[test]
fn asset_ids_are_ordered_as_numbers() {
    let small = UniqueAssetId::parse("FF").unwrap();
    let large = UniqueAssetId::parse("0100").unwrap();
    assert!(small < large);
    assert!(large > small);
    assert!(small <= small.clone());
    assert!(UniqueAssetId::parse("0102").unwrap() < UniqueAssetId::parse("0201").unwrap());
    assert!(UniqueAssetId::parse("0201").unwrap() > UniqueAssetId::parse("01FF").unwrap());
    assert_ne!(small, large);
    assert_eq!(small.partial_cmp(&small), Some(std::cmp::Ordering::Equal));
}

#[test]
fn account_keys_are_ordered_as_numbers() {
    let id = UniqueAssetId::parse(FULL_WIDTH_HEX).unwrap();
    let low = AccountId::new(&identity(&[0xff]), &id);
    let high = AccountId::new(&identity(&[0x01, 0x00]), &id);
    assert!(low < high);
    assert!(AccountId::new(&identity(&[0, 0xff]), &id) == low);
}

#[test]
fn stored_ids_keep_to_their_bounds() {
    let widest = UniqueAssetId::new(&vec![0xff; 29]);
    assert_eq!(widest.to_bytes().len(), 29);
    assert_eq!(widest.as_bytes(), &vec![0xffu8; 29]);
    let key = AccountId::new(&identity(&[0xff; 29]), &widest);
    assert_eq!(key.to_bytes().len(), 58);
    assert_eq!(UniqueAssetId::new(&vec![1; 30]).to_bytes().len(), 30);
}
