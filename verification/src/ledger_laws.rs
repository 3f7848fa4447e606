//! What holds of the ledger across its operations.

use vstd::prelude::*;
use crate::error::LedgerError;
use crate::model::{
    entry_of, lemma_log_keeps_itself, lemma_log_kept_by_push, LedgerView, EVENT_CREATED,
};
use crate::records::{
    asset_update_record, lemma_asset_record_reads_back, lemma_asset_update_record_reads_back,
    AssetUpdateView, AssetView,
};
use crate::types::{account_key, MAX_IDENTITY_LEN};

verus! {

/// After an asset has been created, looking it up gives the caller as
/// issuer, no amendments and the time of the call; the log is one event
/// longer, and its last event says that this asset was created.
pub proof fn lemma_created_asset_is_found(s: LedgerView, caller: Seq<u8>, now: u64, id: nat)
    requires
        caller.len() <= MAX_IDENTITY_LEN,
    ensures
        s.create_asset(caller, now, id).get_asset(id) == Ok::<AssetView, LedgerError>(
            AssetView { created_on: now, issuer: caller, amendment_count: 0 },
        ),
        s.create_asset(caller, now, id).event_count() == s.event_count() + 1,
        s.create_asset(caller, now, id).get_event(s.event_count()) == Ok::<
            AssetUpdateView,
            LedgerError,
        >(AssetUpdateView { asset_id: id, event_id: EVENT_CREATED }),
{
    lemma_asset_record_reads_back(
        AssetView { created_on: now, issuer: caller, amendment_count: 0 },
    );
    lemma_asset_update_record_reads_back(AssetUpdateView { asset_id: id, event_id: EVENT_CREATED });
}

/// An asset id that the registry does not hold is not found.
pub proof fn lemma_unregistered_asset_is_not_found(s: LedgerView, id: nat)
    requires
        !s.assets.contains_key(id),
    ensures
        s.get_asset(id) == Err::<AssetView, LedgerError>(LedgerError::NotFound),
{
}

/// Only creating an asset registers it: creating another asset, creating
/// tokens and transferring leave an unregistered asset id unregistered.
pub proof fn lemma_only_creation_registers(
    s: LedgerView,
    id: nat,
    who: Seq<u8>,
    to: Seq<u8>,
    now: u64,
    other: nat,
    amount: u128,
)
    requires
        !s.assets.contains_key(id),
        other != id,
    ensures
        !s.create_asset(who, now, other).assets.contains_key(id),
        !s.create_tokens(who, other, amount).assets.contains_key(id),
        !s.create_tokens(who, id, amount).assets.contains_key(id),
        s.transfer(who, to, other, amount) matches Ok(t) ==> !t.assets.contains_key(id),
        s.transfer(who, to, id, amount) matches Ok(t) ==> !t.assets.contains_key(id),
{
}

/// After tokens have been created, the asset's total and the caller's
/// balance are both the amount of the call, whatever they were before.
pub proof fn lemma_created_tokens_are_set(s: LedgerView, caller: Seq<u8>, id: nat, amount: u128)
    ensures
        s.create_tokens(caller, id, amount).total_tokens(id) == amount,
        s.create_tokens(caller, id, amount).balance_of(caller, id) == amount,
{
}

/// Creating tokens twice leaves what the second call set: the first amount
/// is overwritten, not added to.
pub proof fn lemma_created_tokens_overwrite(
    s: LedgerView,
    caller: Seq<u8>,
    id: nat,
    first: u128,
    second: u128,
)
    ensures
        s.create_tokens(caller, id, first).create_tokens(caller, id, second).total_tokens(id)
            == second,
        s.create_tokens(caller, id, first).create_tokens(caller, id, second).balance_of(caller, id)
            == second,
        s.create_tokens(caller, id, first).create_tokens(caller, id, second) == s.create_tokens(
            caller,
            id,
            second,
        ),
{
    let once = s.create_tokens(caller, id, second);
    let twice = s.create_tokens(caller, id, first).create_tokens(caller, id, second);
    assert(twice.total_units =~= once.total_units);
    assert(twice.balances =~= once.balances);
}

/// Creating tokens changes no account but the caller's, and no total but
/// the asset's.
pub proof fn lemma_created_tokens_touch_one_account(
    s: LedgerView,
    caller: Seq<u8>,
    id: nat,
    amount: u128,
    key: nat,
    other: nat,
)
    requires
        key != account_key(caller, id),
        other != id,
    ensures
        entry_of(s.create_tokens(caller, id, amount).balances, key) == entry_of(s.balances, key),
        s.create_tokens(caller, id, amount).total_tokens(other) == s.total_tokens(other),
{
}

/// A transfer between two different accounts that is not refused takes the
/// amount from the sender's balance and adds it to the receiver's.
pub proof fn lemma_transfer_moves_amount(
    s: LedgerView,
    from: Seq<u8>,
    to: Seq<u8>,
    id: nat,
    amount: u128,
)
    requires
        account_key(from, id) != account_key(to, id),
        s.transfer(from, to, id, amount) is Ok,
    ensures
        s.transfer(from, to, id, amount)->Ok_0.balance_of(from, id) == s.balance_of(from, id)
            - amount,
        s.transfer(from, to, id, amount)->Ok_0.balance_of(to, id) == s.balance_of(to, id) + amount,
        s.transfer(from, to, id, amount)->Ok_0.balance_of(from, id) + s.transfer(
            from,
            to,
            id,
            amount,
        )->Ok_0.balance_of(to, id) == s.balance_of(from, id) + s.balance_of(to, id),
{
}

/// A transfer within one account, which two owners share where their keys
/// are the same number, adds the amount to it: the receiving side is
/// written last.
pub proof fn lemma_transfer_within_one_account_adds(
    s: LedgerView,
    from: Seq<u8>,
    to: Seq<u8>,
    id: nat,
    amount: u128,
)
    requires
        account_key(from, id) == account_key(to, id),
        s.transfer(from, to, id, amount) is Ok,
    ensures
        s.transfer(from, to, id, amount)->Ok_0.balance_of(from, id) == s.balance_of(from, id)
            + amount,
{
}

/// A transfer is carried out exactly when the sender has an account that
/// holds the amount and the receiver's balance has room for it.
pub proof fn lemma_transfer_succeeds_when(
    s: LedgerView,
    from: Seq<u8>,
    to: Seq<u8>,
    id: nat,
    amount: u128,
)
    ensures
        s.transfer(from, to, id, amount) is Ok <==> (s.balances.contains_key(account_key(from, id))
            && amount <= s.balance_of(from, id) && s.balance_of(to, id) + amount <= u128::MAX),
{
}

/// A transfer changes no total, no asset record and no event, and no
/// account but the sender's and the receiver's.
pub proof fn lemma_transfer_keeps_the_rest(
    s: LedgerView,
    from: Seq<u8>,
    to: Seq<u8>,
    id: nat,
    amount: u128,
    key: nat,
)
    requires
        s.transfer(from, to, id, amount) is Ok,
        key != account_key(from, id),
        key != account_key(to, id),
    ensures
        s.transfer(from, to, id, amount)->Ok_0.total_units == s.total_units,
        s.transfer(from, to, id, amount)->Ok_0.assets == s.assets,
        s.transfer(from, to, id, amount)->Ok_0.events == s.events,
        entry_of(s.transfer(from, to, id, amount)->Ok_0.balances, key) == entry_of(s.balances, key),
{
}

/// A transfer of more than the sender's account holds is refused as an
/// arithmetic error.
pub proof fn lemma_overdraft_is_refused(
    s: LedgerView,
    from: Seq<u8>,
    to: Seq<u8>,
    id: nat,
    amount: u128,
)
    requires
        s.balances.contains_key(account_key(from, id)),
        amount > s.balance_of(from, id),
    ensures
        s.transfer(from, to, id, amount) == Err::<LedgerView, LedgerError>(LedgerError::Arithmetic),
{
}

/// A transfer from an owner without an account is refused as not found,
/// though the balance of that owner reads as zero.
pub proof fn lemma_transfer_needs_an_account(
    s: LedgerView,
    from: Seq<u8>,
    to: Seq<u8>,
    id: nat,
    amount: u128,
)
    requires
        !s.balances.contains_key(account_key(from, id)),
    ensures
        s.transfer(from, to, id, amount) == Err::<LedgerView, LedgerError>(LedgerError::NotFound),
        s.balance_of(from, id) == 0,
{
}

/// An index from the number of events on is not found.
pub proof fn lemma_event_beyond_log_is_not_found(s: LedgerView, index: nat)
    requires
        index >= s.event_count(),
    ensures
        s.get_event(index) == Err::<AssetUpdateView, LedgerError>(LedgerError::NotFound),
{
}

/// Where a later log begins with an earlier one, every index of the
/// earlier log reads the same in both.
pub proof fn lemma_kept_log_reads_the_same(s: LedgerView, later: LedgerView, index: nat)
    requires
        s.log_kept_by(later),
        index < s.event_count(),
    ensures
        later.get_event(index) == s.get_event(index),
{
    let kept = later.events.subrange(0, s.events.len() as int);
    assert(kept[index as int] == later.events[index as int]);
}

/// The log only grows at its end: no operation changes an event that is in
/// it.
pub proof fn lemma_log_is_append_only(
    s: LedgerView,
    who: Seq<u8>,
    to: Seq<u8>,
    now: u64,
    id: nat,
    amount: u128,
    event: AssetUpdateView,
)
    ensures
        s.log_kept_by(s.with_asset(who, now, id)),
        s.log_kept_by(s.with_event(event)),
        s.log_kept_by(s.create_asset(who, now, id)),
        s.log_kept_by(s.create_tokens(who, id, amount)),
        s.transfer(who, to, id, amount) matches Ok(t) ==> s.log_kept_by(t),
{
    let created = AssetUpdateView { asset_id: id, event_id: EVENT_CREATED };
    lemma_log_keeps_itself(s);
    lemma_log_kept_by_push(s.events, asset_update_record(event));
    lemma_log_kept_by_push(s.events, asset_update_record(created));
}

} // verus!
