//! The ledger as a mathematical value, and what each operation does to it.

use vstd::prelude::*;
use crate::error::LedgerError;
use crate::hex_text::hex_bytes;
use crate::magnitude::be_value;
use crate::records::{
    asset_record, asset_update_record, parse_asset_record, parse_asset_update_record,
    AssetUpdateView, AssetView,
};
use crate::types::account_key;

verus! {

/// The event code for "asset created".
pub const EVENT_CREATED: u16 = 1;

/// The asset id that well-formed hexadecimal text `hex` names.
pub open spec fn asset_id_of(hex: Seq<char>) -> nat {
    be_value(hex_bytes(hex))
}

/// Everything the ledger holds.
pub struct LedgerView {
    /// The registry: the stored asset record of each registered asset id.
    pub assets: Map<nat, Seq<u8>>,
    /// The log: the stored form of each event, oldest first.
    pub events: Seq<Seq<u8>>,
    /// The units issued for each asset id.
    pub total_units: Map<nat, u128>,
    /// The balance of each account key.
    pub balances: Map<nat, u128>,
}

/// What a transfer does to the two balances it reads: `from` is the
/// sender's entry, `to` the receiver's, nothing where there is none. The
/// result is the sender's and the receiver's new balance.
pub open spec fn moved(from: Option<u128>, to: Option<u128>, amount: u128) -> Result<
    (u128, u128),
    LedgerError,
> {
    let to_before = match to {
        Some(x) => x,
        None => 0u128,
    };
    match from {
        None => Err(LedgerError::NotFound),
        Some(from_before) => if from_before < amount || to_before + amount > u128::MAX {
            Err(LedgerError::Arithmetic)
        } else {
            Ok(((from_before - amount) as u128, (to_before + amount) as u128))
        },
    }
}

/// The entry of `m` under `key`, if there is one.
pub open spec fn entry_of(m: Map<nat, u128>, key: nat) -> Option<u128> {
    if m.contains_key(key) {
        Some(m[key])
    } else {
        None
    }
}

impl LedgerView {
    /// Looking an asset up: not found where the registry has no entry,
    /// corrupt where the entry is not the stored form of a record.
    pub open spec fn get_asset(self, id: nat) -> Result<AssetView, LedgerError> {
        if !self.assets.contains_key(id) {
            Err(LedgerError::NotFound)
        } else {
            match parse_asset_record(self.assets[id]) {
                Some(a) => Ok(a),
                None => Err(LedgerError::Corrupt),
            }
        }
    }

    /// The number of events in the log.
    pub open spec fn event_count(self) -> nat {
        self.events.len()
    }

    /// Looking an event up by its index: not found from the number of
    /// events on, corrupt where the entry is not the stored form of an
    /// event.
    pub open spec fn get_event(self, index: nat) -> Result<AssetUpdateView, LedgerError> {
        if index >= self.events.len() {
            Err(LedgerError::NotFound)
        } else {
            match parse_asset_update_record(self.events[index as int]) {
                Some(e) => Ok(e),
                None => Err(LedgerError::Corrupt),
            }
        }
    }

    /// The units issued for an asset, zero where none were.
    pub open spec fn total_tokens(self, id: nat) -> u128 {
        if self.total_units.contains_key(id) {
            self.total_units[id]
        } else {
            0
        }
    }

    /// The balance of an owner in an asset, zero where there is no account.
    pub open spec fn balance_of(self, owner: Seq<u8>, id: nat) -> u128 {
        let key = account_key(owner, id);
        if self.balances.contains_key(key) {
            self.balances[key]
        } else {
            0
        }
    }

    /// The ledger after `id` has been registered, or registered anew, with
    /// `issuer` as its issuer, no amendments and `now` as its creation time.
    pub open spec fn with_asset(self, issuer: Seq<u8>, now: u64, id: nat) -> LedgerView {
        LedgerView {
            assets: self.assets.insert(
                id,
                asset_record(AssetView { created_on: now, issuer, amendment_count: 0 }),
            ),
            ..self
        }
    }

    /// The ledger after `event` has been put at the end of the log.
    pub open spec fn with_event(self, event: AssetUpdateView) -> LedgerView {
        LedgerView { events: self.events.push(asset_update_record(event)), ..self }
    }

    /// The ledger after an asset has been created: registered, and the log
    /// one "created" event longer.
    pub open spec fn create_asset(self, caller: Seq<u8>, now: u64, id: nat) -> LedgerView {
        self.with_asset(caller, now, id).with_event(
            AssetUpdateView { asset_id: id, event_id: EVENT_CREATED },
        )
    }

    /// The ledger after tokens have been created: the asset's total and the
    /// caller's balance are both set to `amount`, whatever they were.
    pub open spec fn create_tokens(self, caller: Seq<u8>, id: nat, amount: u128) -> LedgerView {
        LedgerView {
            total_units: self.total_units.insert(id, amount),
            balances: self.balances.insert(account_key(caller, id), amount),
            ..self
        }
    }

    /// A transfer: the ledger after it, or why it is refused. The sender
    /// must have an account; its balance must cover `amount`; the
    /// receiver's balance, zero where it has no account, must have room for
    /// it. Both balances are read before either is written, the sender's is
    /// written first, and the receiver's last.
    pub open spec fn transfer(self, from: Seq<u8>, to: Seq<u8>, id: nat, amount: u128) -> Result<
        LedgerView,
        LedgerError,
    > {
        let from_key = account_key(from, id);
        let to_key = account_key(to, id);
        match moved(entry_of(self.balances, from_key), entry_of(self.balances, to_key), amount) {
            Err(e) => Err(e),
            Ok((from_after, to_after)) => Ok(
                LedgerView {
                    balances: self.balances.insert(from_key, from_after).insert(to_key, to_after),
                    ..self
                },
            ),
        }
    }

    /// Whether the log of `later` begins with the whole log of `self`.
    pub open spec fn log_kept_by(self, later: LedgerView) -> bool {
        self.events.len() <= later.events.len() && later.events.subrange(
            0,
            self.events.len() as int,
        ) == self.events
    }
}

/// A log begins with itself.
pub proof fn lemma_log_keeps_itself(s: LedgerView)
    ensures
        s.log_kept_by(s),
{
    assert(s.events.subrange(0, s.events.len() as int) == s.events);
}

/// A log with one more entry begins with the log before.
pub proof fn lemma_log_kept_by_push(events: Seq<Seq<u8>>, entry: Seq<u8>)
    ensures
        events.push(entry).subrange(0, events.len() as int) == events,
{
}

} // verus!
