//! The ledger: an asset registry, an event log and token balances over
//! persistent storage.

use vstd::prelude::*;
use crate::error::LedgerError;
use crate::hex_text::is_hex_text;
use crate::magnitude::{lemma_minimal_bytes_injective, minimal_bytes};
use crate::model::{
    asset_id_of, lemma_log_keeps_itself, lemma_log_kept_by_push, moved, LedgerView, EVENT_CREATED,
};
use crate::records::{
    lemma_asset_update_record_reads_back, parse_asset_record, parse_asset_update_record, Asset,
    AssetUpdate, AssetUpdateView, AssetView,
};
use crate::store::{
    amount_entries, amount_map_get, amount_map_insert, amount_map_open, event_log_append,
    event_log_get, event_log_len, event_log_open, log_entries, record_entries, record_map_get,
    record_map_insert, record_map_open, AmountMap, EventLog, RecordMap, Segments,
};
use crate::types::{AccountId, Identity, UniqueAssetId};
use ic_stable_structures::log::{InitError, WriteError};

verus! {

/// The tag of the segment that holds the asset registry.
pub const ASSETS_MEMORY_ID: u8 = 0;

/// The tag of the segment that holds the index of the event log.
pub const ASSET_UPDATE_LOG_IX_MEMORY_ID: u8 = 1;

/// The tag of the segment that holds the entries of the event log.
pub const ASSET_UPDATE_LOG_DATA_MEMORY_ID: u8 = 2;

/// The tag of the segment that holds the units issued for each asset.
pub const TOTAL_UNITS_MEMORY_ID: u8 = 4;

/// The tag of the segment that holds the account balances.
pub const ACCOUNTS_MEMORY_ID: u8 = 5;

/// A map whose keys are numbers in their shortest big-endian form, as a map
/// from the numbers. Keys in any other form are not part of it.
pub open spec fn by_number<V>(entries: Map<Seq<u8>, V>) -> Map<nat, V> {
    Map::new(
        |n: nat| entries.contains_key(minimal_bytes(n)),
        |n: nat| entries[minimal_bytes(n)],
    )
}

/// Storing under the shortest form of `n` is storing under `n`.
pub proof fn lemma_by_number_insert<V>(entries: Map<Seq<u8>, V>, n: nat, value: V)
    ensures
        by_number(entries.insert(minimal_bytes(n), value)) == by_number(entries).insert(n, value),
{
    assert forall|k: nat| k != n implies minimal_bytes(k) != minimal_bytes(n) by {
        if minimal_bytes(k) == minimal_bytes(n) {
            lemma_minimal_bytes_injective(k, n);
        }
    }
    assert(by_number(entries.insert(minimal_bytes(n), value)) =~= by_number(entries).insert(
        n,
        value,
    ));
}

/// What looking an asset up gives for what the registry returned: not
/// found for nothing, the record for its stored form, corrupt for any other
/// bytes.
pub fn found_asset(record: Option<Vec<u8>>) -> (r: Result<Asset, LedgerError>)
    ensures
        match r {
            Ok(a) => record matches Some(bytes) && parse_asset_record(bytes@) == Some(a@),
            Err(e) => match record {
                None => e == LedgerError::NotFound,
                Some(bytes) => e == LedgerError::Corrupt && parse_asset_record(bytes@) is None,
            },
        },
{
    match record {
        None => Err(LedgerError::NotFound),
        Some(bytes) => match Asset::from_bytes(&bytes) {
            Some(a) => Ok(a),
            None => Err(LedgerError::Corrupt),
        },
    }
}

/// What looking an event up gives for what the log returned: not found for
/// nothing, the event for its stored form, corrupt for any other bytes.
pub fn found_event(entry: Option<Vec<u8>>) -> (r: Result<AssetUpdate, LedgerError>)
    ensures
        match r {
            Ok(e) => entry matches Some(bytes) && parse_asset_update_record(bytes@) == Some(e@),
            Err(e) => match entry {
                None => e == LedgerError::NotFound,
                Some(bytes) => e == LedgerError::Corrupt && parse_asset_update_record(bytes@)
                    is None,
            },
        },
{
    match entry {
        None => Err(LedgerError::NotFound),
        Some(bytes) => match AssetUpdate::from_bytes(&bytes) {
            Some(e) => Ok(e),
            None => Err(LedgerError::Corrupt),
        },
    }
}

/// What appending to the log gives for what the log returned: the index of
/// the new entry, or a write failure.
pub fn appended(outcome: Result<u64, WriteError>) -> (r: Result<u64, LedgerError>)
    ensures
        match outcome {
            Ok(index) => r == Ok::<u64, LedgerError>(index),
            Err(_) => r == Err::<u64, LedgerError>(LedgerError::StorageWrite),
        },
{
    match outcome {
        Ok(index) => Ok(index),
        Err(_) => Err(LedgerError::StorageWrite),
    }
}

/// What opening the log gives for what the storage returned: the log, or a
/// failure to open the storage.
pub fn opened_log(outcome: Result<EventLog, InitError>) -> (r: Result<EventLog, LedgerError>)
    ensures
        match outcome {
            Ok(log) => r == Ok::<EventLog, LedgerError>(log),
            Err(_) => r == Err::<EventLog, LedgerError>(LedgerError::StorageInit),
        },
{
    match outcome {
        Ok(log) => Ok(log),
        Err(_) => Err(LedgerError::StorageInit),
    }
}

/// The new balances of sender and receiver for a transfer of `amount`,
/// given the entries of their accounts. The sender must have an entry and
/// enough in it; the receiver's balance counts as zero without an entry and
/// must not pass 128 bits.
pub fn moved_balances(from: Option<u128>, to: Option<u128>, amount: u128) -> (r: Result<
    (u128, u128),
    LedgerError,
>)
    ensures
        r == moved(from, to, amount),
{
    let from_old_balance = match from {
        Some(x) => x,
        None => {
            return Err(LedgerError::NotFound);
        },
    };
    let from_new_balance = match from_old_balance.checked_sub(amount) {
        Some(x) => x,
        None => {
            return Err(LedgerError::Arithmetic);
        },
    };
    let to_old_balance = match to {
        Some(x) => x,
        None => 0,
    };
    let to_new_balance = match to_old_balance.checked_add(amount) {
        Some(x) => x,
        None => {
            return Err(LedgerError::Arithmetic);
        },
    };
    Ok((from_new_balance, to_new_balance))
}

/// The ledger. It owns the four maps and the log for as long as it lives.
pub struct Ledger {
    assets: RecordMap,
    events: EventLog,
    total_units: AmountMap,
    accounts: AmountMap,
}

impl View for Ledger {
    type V = LedgerView;

    closed spec fn view(&self) -> LedgerView {
        LedgerView {
            assets: by_number(record_entries(self.assets)),
            events: log_entries(self.events),
            total_units: by_number(amount_entries(self.total_units)),
            balances: by_number(amount_entries(self.accounts)),
        }
    }
}

impl Ledger {
    /// Opens the ledger over the persistent memory: each structure takes the
    /// segment with its tag and holds whatever was stored there before. The
    /// only failure is a log that cannot be opened. A process opens its
    /// ledger once: the memory belongs to the ledger that was opened over
    /// it.
    pub fn open() -> (r: Result<Ledger, LedgerError>)
        ensures
            r matches Err(e) ==> e == LedgerError::StorageInit,
    {
        let mut segments = Segments::open();
        let assets = record_map_open(segments.claim(ASSETS_MEMORY_ID));
        let index = segments.claim(ASSET_UPDATE_LOG_IX_MEMORY_ID);
        let data = segments.claim(ASSET_UPDATE_LOG_DATA_MEMORY_ID);
        let events = match opened_log(event_log_open(index, data)) {
            Ok(log) => log,
            Err(e) => {
                return Err(e);
            },
        };
        let total_units = amount_map_open(segments.claim(TOTAL_UNITS_MEMORY_ID));
        let accounts = amount_map_open(segments.claim(ACCOUNTS_MEMORY_ID));
        Ok(Ledger { assets, events, total_units, accounts })
    }

    /// Registers an asset, or registers it anew, with `caller` as issuer,
    /// `now` as creation time and no amendments, and records a "created"
    /// event. Malformed hexadecimal text changes nothing. Where the log
    /// cannot take the event the asset stays registered.
    pub fn create_asset(&mut self, caller: &Identity, now: u64, unique_asset_id_hex: &str) -> (r:
        Result<(), LedgerError>)
        ensures
            match r {
                Ok(_) => {
                    let id = asset_id_of(unique_asset_id_hex@);
                    &&& is_hex_text(unique_asset_id_hex@)
                    &&& final(self)@ == old(self)@.create_asset(caller@, now, id)
                    &&& final(self)@.get_asset(id) == Ok::<AssetView, LedgerError>(
                        AssetView { created_on: now, issuer: caller@, amendment_count: 0 },
                    )
                    &&& final(self)@.event_count() == old(self)@.event_count() + 1
                    &&& final(self)@.get_event(old(self)@.event_count()) == Ok::<
                        AssetUpdateView,
                        LedgerError,
                    >(AssetUpdateView { asset_id: id, event_id: EVENT_CREATED })
                },
                Err(e) => if is_hex_text(unique_asset_id_hex@) {
                    e == LedgerError::StorageWrite && final(self)@ == old(self)@.with_asset(
                        caller@,
                        now,
                        asset_id_of(unique_asset_id_hex@),
                    )
                } else {
                    e == LedgerError::Parse && final(self)@ == old(self)@
                },
            },
            old(self)@.log_kept_by(final(self)@),
    {
        let unique_asset_id = match UniqueAssetId::parse(unique_asset_id_hex) {
            Ok(id) => id,
            Err(e) => {
                proof {
                    lemma_log_keeps_itself(self@);
                }
                return Err(e);
            },
        };
        let asset = Asset { issuer: caller.clone(), amendment_count: 0, created_on: now };
        let key = unique_asset_id.to_bytes();
        let record = asset.to_bytes();
        proof {
            lemma_by_number_insert(record_entries(self.assets), unique_asset_id@, record@);
        }
        record_map_insert(&mut self.assets, key, record);
        proof {
            lemma_asset_update_record_reads_back(
                AssetUpdateView { asset_id: unique_asset_id@, event_id: EVENT_CREATED },
            );
        }
        match self.emit_asset_update(&unique_asset_id, EVENT_CREATED) {
            Ok(_) => Ok(()),
            Err(e) => Err(e),
        }
    }

    /// Puts an event at the end of the log and returns its index, the
    /// number of events before it.
    pub fn emit_asset_update(&mut self, unique_asset_id: &UniqueAssetId, event_id: u16) -> (r:
        Result<u64, LedgerError>)
        ensures
            match r {
                Ok(index) => {
                    let event = AssetUpdateView { asset_id: unique_asset_id@, event_id };
                    &&& index == old(self)@.event_count()
                    &&& final(self)@ == old(self)@.with_event(event)
                    &&& final(self)@.get_event(index as nat) == Ok::<AssetUpdateView, LedgerError>(
                        event,
                    )
                },
                Err(e) => e == LedgerError::StorageWrite && final(self)@ == old(self)@,
            },
            old(self)@.log_kept_by(final(self)@),
    {
        let event = AssetUpdate { asset_id: unique_asset_id.clone(), event_id };
        let entry = event.to_bytes();
        proof {
            lemma_log_keeps_itself(self@);
            lemma_log_kept_by_push(self@.events, entry@);
        }
        appended(event_log_append(&mut self.events, &entry))
    }

    /// The record of a registered asset.
    pub fn get_asset(&self, unique_asset_id_hex: &str) -> (r: Result<Asset, LedgerError>)
        ensures
            match r {
                Ok(a) => is_hex_text(unique_asset_id_hex@) && self@.get_asset(
                    asset_id_of(unique_asset_id_hex@),
                ) == Ok::<_, LedgerError>(a@),
                Err(e) => if is_hex_text(unique_asset_id_hex@) {
                    self@.get_asset(asset_id_of(unique_asset_id_hex@)) == Err::<
                        AssetView,
                        LedgerError,
                    >(e)
                } else {
                    e == LedgerError::Parse
                },
            },
    {
        let unique_asset_id = match UniqueAssetId::parse(unique_asset_id_hex) {
            Ok(id) => id,
            Err(e) => {
                return Err(e);
            },
        };
        let key = unique_asset_id.to_bytes();
        found_asset(record_map_get(&self.assets, &key))
    }

    /// The event at index `i` of the log.
    pub fn get_event(&self, i: u64) -> (r: Result<AssetUpdate, LedgerError>)
        ensures
            match r {
                Ok(e) => self@.get_event(i as nat) == Ok::<_, LedgerError>(e@),
                Err(e) => self@.get_event(i as nat) == Err::<AssetUpdateView, LedgerError>(e),
            },
    {
        found_event(event_log_get(&self.events, i))
    }

    /// The number of events in the log.
    pub fn get_event_count(&self) -> (r: u64)
        ensures
            r == self@.event_count(),
    {
        event_log_len(&self.events)
    }

    /// Sets the units issued for an asset, and the caller's balance in it,
    /// to `amount`. What either was before is lost; no other balance
    /// changes. Malformed hexadecimal text changes nothing.
    pub fn create_tokens(
        &mut self,
        caller: &Identity,
        unique_asset_id_hex: &str,
        amount: u128,
    ) -> (r: Result<(), LedgerError>)
        ensures
            match r {
                Ok(_) => {
                    let id = asset_id_of(unique_asset_id_hex@);
                    &&& is_hex_text(unique_asset_id_hex@)
                    &&& final(self)@ == old(self)@.create_tokens(caller@, id, amount)
                    &&& final(self)@.total_tokens(id) == amount
                    &&& final(self)@.balance_of(caller@, id) == amount
                },
                Err(e) => {
                    &&& !is_hex_text(unique_asset_id_hex@)
                    &&& e == LedgerError::Parse
                    &&& final(self)@ == old(self)@
                },
            },
            old(self)@.log_kept_by(final(self)@),
    {
        proof {
            lemma_log_keeps_itself(self@);
        }
        let unique_asset_id = match UniqueAssetId::parse(unique_asset_id_hex) {
            Ok(id) => id,
            Err(e) => {
                return Err(e);
            },
        };
        proof {
            lemma_by_number_insert(amount_entries(self.total_units), unique_asset_id@, amount);
        }
        amount_map_insert(&mut self.total_units, unique_asset_id.to_bytes(), amount);
        let account_id = AccountId::new(caller, &unique_asset_id);
        proof {
            lemma_by_number_insert(amount_entries(self.accounts), account_id@, amount);
        }
        amount_map_insert(&mut self.accounts, account_id.to_bytes(), amount);
        Ok(())
    }

    /// The units issued for an asset, zero where none were.
    pub fn total_tokens(&self, unique_asset_id_hex: &str) -> (r: Result<u128, LedgerError>)
        ensures
            match r {
                Ok(units) => is_hex_text(unique_asset_id_hex@) && units == self@.total_tokens(
                    asset_id_of(unique_asset_id_hex@),
                ),
                Err(e) => !is_hex_text(unique_asset_id_hex@) && e == LedgerError::Parse,
            },
    {
        let unique_asset_id = match UniqueAssetId::parse(unique_asset_id_hex) {
            Ok(id) => id,
            Err(e) => {
                return Err(e);
            },
        };
        let key = unique_asset_id.to_bytes();
        match amount_map_get(&self.total_units, &key) {
            Some(bal) => Ok(bal),
            None => Ok(0),
        }
    }

    /// The balance of `principal` in an asset, zero where it has no
    /// account.
    pub fn account_tokens(&self, principal: &Identity, unique_asset_id_hex: &str) -> (r: Result<
        u128,
        LedgerError,
    >)
        ensures
            match r {
                Ok(units) => is_hex_text(unique_asset_id_hex@) && units == self@.balance_of(
                    principal@,
                    asset_id_of(unique_asset_id_hex@),
                ),
                Err(e) => !is_hex_text(unique_asset_id_hex@) && e == LedgerError::Parse,
            },
    {
        let unique_asset_id = match UniqueAssetId::parse(unique_asset_id_hex) {
            Ok(id) => id,
            Err(e) => {
                return Err(e);
            },
        };
        let account_id = AccountId::new(principal, &unique_asset_id);
        let key = account_id.to_bytes();
        match amount_map_get(&self.accounts, &key) {
            Some(bal) => Ok(bal),
            None => Ok(0),
        }
    }

    /// Moves `amount` units of an asset from one owner's account to
    /// another's. A refused transfer changes nothing.
    pub fn transfer_tokens(
        &mut self,
        from: &Identity,
        to: &Identity,
        unique_asset_id_hex: &str,
        amount: u128,
    ) -> (r: Result<(), LedgerError>)
        ensures
            match r {
                Ok(_) => is_hex_text(unique_asset_id_hex@) && old(self)@.transfer(
                    from@,
                    to@,
                    asset_id_of(unique_asset_id_hex@),
                    amount,
                ) == Ok::<_, LedgerError>(final(self)@),
                Err(e) => final(self)@ == old(self)@ && if is_hex_text(unique_asset_id_hex@) {
                    old(self)@.transfer(from@, to@, asset_id_of(unique_asset_id_hex@), amount)
                        == Err::<LedgerView, _>(e)
                } else {
                    e == LedgerError::Parse
                },
            },
            final(self)@.total_units == old(self)@.total_units,
            final(self)@.assets == old(self)@.assets,
            final(self)@.events == old(self)@.events,
            old(self)@.log_kept_by(final(self)@),
    {
        proof {
            lemma_log_keeps_itself(self@);
        }
        let unique_asset_id = match UniqueAssetId::parse(unique_asset_id_hex) {
            Ok(id) => id,
            Err(e) => {
                return Err(e);
            },
        };
        let acc_from = AccountId::new(from, &unique_asset_id);
        let acc_to = AccountId::new(to, &unique_asset_id);
        let from_key = acc_from.to_bytes();
        let to_key = acc_to.to_bytes();
        let from_old_balance = amount_map_get(&self.accounts, &from_key);
        let to_old_balance = amount_map_get(&self.accounts, &to_key);
        let (from_new_balance, to_new_balance) = match moved_balances(
            from_old_balance,
            to_old_balance,
            amount,
        ) {
            Ok(pair) => pair,
            Err(e) => {
                return Err(e);
            },
        };
        proof {
            let before = amount_entries(self.accounts);
            lemma_by_number_insert(before, acc_from@, from_new_balance);
            lemma_by_number_insert(
                before.insert(minimal_bytes(acc_from@), from_new_balance),
                acc_to@,
                to_new_balance,
            );
        }
        amount_map_insert(&mut self.accounts, from_key, from_new_balance);
        amount_map_insert(&mut self.accounts, to_key, to_new_balance);
        Ok(())
    }
}

} // verus!
