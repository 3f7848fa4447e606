//! The persistent structures behind the ledger.
//!
//! One growable memory is divided into segments, each named by a small tag;
//! a segment backs exactly one map or one half of the log. The structures
//! themselves are those of `ic_stable_structures`; this module names what
//! they hold and says what each of their operations does to it.

use vstd::prelude::*;
use ic_stable_structures::log::{InitError, WriteError};
use ic_stable_structures::memory_manager::{MemoryId, MemoryManager, VirtualMemory};
use ic_stable_structures::{DefaultMemoryImpl, StableBTreeMap, StableLog};

verus! {

/// The one tag that cannot name a segment.
pub const UNUSABLE_TAG: u8 = 255;

#[verifier::external_type_specification]
#[verifier::external_body]
pub struct ExInitError(InitError);

#[verifier::external_type_specification]
#[verifier::external_body]
pub struct ExWriteError(WriteError);

/// The manager that divides the memory into segments: a `MemoryManager`
/// over the default memory.
#[verifier::external_body]
pub struct SegmentManager {
    inner: MemoryManager<DefaultMemoryImpl>,
}

/// One segment of the memory: a `VirtualMemory`.
#[verifier::external_body]
pub struct Segment {
    inner: VirtualMemory<DefaultMemoryImpl>,
}

/// A persistent map from byte strings to amounts: a `StableBTreeMap`.
#[verifier::external_body]
pub struct AmountMap {
    inner: StableBTreeMap<Vec<u8>, u128, VirtualMemory<DefaultMemoryImpl>>,
}

/// A persistent map from byte strings to byte strings: a `StableBTreeMap`.
#[verifier::external_body]
pub struct RecordMap {
    inner: StableBTreeMap<Vec<u8>, Vec<u8>, VirtualMemory<DefaultMemoryImpl>>,
}

/// A persistent append-only list of byte strings: a `StableLog`.
#[verifier::external_body]
pub struct EventLog {
    inner: StableLog<Vec<u8>, VirtualMemory<DefaultMemoryImpl>, VirtualMemory<DefaultMemoryImpl>>,
}

/// The entries of an amount map.
pub uninterp spec fn amount_entries(m: AmountMap) -> Map<Seq<u8>, u128>;

/// The entries of a record map.
pub uninterp spec fn record_entries(m: RecordMap) -> Map<Seq<u8>, Seq<u8>>;

/// The entries of a log, oldest first.
pub uninterp spec fn log_entries(l: EventLog) -> Seq<Seq<u8>>;

/// Calls `MemoryManager::init` on the default memory, which takes over the
/// segments already laid out there or lays out none. Nothing is claimed of
/// the result. A memory laid out by an unknown version stops the process.
#[verifier::external_body]
pub(crate) fn manager_open() -> (r: SegmentManager) {
    SegmentManager { inner: MemoryManager::init(DefaultMemoryImpl::default()) }
}

/// Calls `MemoryManager::get` for the segment that `tag` names. Nothing is
/// claimed of the result; `MemoryId::new` refuses the tag 255.
#[verifier::external_body]
pub(crate) fn manager_segment(manager: &SegmentManager, tag: u8) -> (r: Segment)
    requires
        tag != UNUSABLE_TAG,
{
    Segment { inner: manager.inner.get(MemoryId::new(tag)) }
}

/// Calls `StableBTreeMap::init`, which loads the map that the segment holds
/// or starts an empty one. What the map holds depends on the memory, so
/// nothing is claimed of it. A map laid out by an unknown version stops the
/// process.
#[verifier::external_body]
pub(crate) fn amount_map_open(segment: Segment) -> (r: AmountMap) {
    AmountMap { inner: StableBTreeMap::init(segment.inner) }
}

/// Calls `StableBTreeMap::get`: the value stored under `key`, if any.
#[verifier::external_body]
pub(crate) fn amount_map_get(m: &AmountMap, key: &Vec<u8>) -> (r: Option<u128>)
    ensures
        r == (if amount_entries(*m).contains_key(key@) {
            Some(amount_entries(*m)[key@])
        } else {
            None::<u128>
        }),
{
    m.inner.get(key)
}

/// Calls `StableBTreeMap::insert`: `key` now maps to `value`, every other
/// entry stays, and the value that `key` had before is returned. The process
/// stops if the memory cannot grow.
#[verifier::external_body]
pub(crate) fn amount_map_insert(m: &mut AmountMap, key: Vec<u8>, value: u128) -> (r: Option<u128>)
    ensures
        amount_entries(*final(m)) == amount_entries(*old(m)).insert(key@, value),
        r == (if amount_entries(*old(m)).contains_key(key@) {
            Some(amount_entries(*old(m))[key@])
        } else {
            None::<u128>
        }),
{
    m.inner.insert(key, value)
}

/// Calls `StableBTreeMap::init`, which loads the map that the segment holds
/// or starts an empty one. What the map holds depends on the memory, so
/// nothing is claimed of it. A map laid out by an unknown version stops the
/// process.
#[verifier::external_body]
pub(crate) fn record_map_open(segment: Segment) -> (r: RecordMap) {
    RecordMap { inner: StableBTreeMap::init(segment.inner) }
}

/// Calls `StableBTreeMap::get`: the value stored under `key`, if any.
#[verifier::external_body]
pub(crate) fn record_map_get(m: &RecordMap, key: &Vec<u8>) -> (r: Option<Vec<u8>>)
    ensures
        r is Some <==> record_entries(*m).contains_key(key@),
        r matches Some(value) ==> value@ == record_entries(*m)[key@],
{
    m.inner.get(key)
}

/// Calls `StableBTreeMap::insert`: `key` now maps to `value`, every other
/// entry stays, and the value that `key` had before is returned. The process
/// stops if the memory cannot grow.
#[verifier::external_body]
pub(crate) fn record_map_insert(m: &mut RecordMap, key: Vec<u8>, value: Vec<u8>) -> (r: Option<
    Vec<u8>,
>)
    ensures
        record_entries(*final(m)) == record_entries(*old(m)).insert(key@, value@),
        r is Some <==> record_entries(*old(m)).contains_key(key@),
        r matches Some(before) ==> before@ == record_entries(*old(m))[key@],
{
    m.inner.insert(key, value)
}

/// Calls `StableLog::init` over an index segment and a data segment. It
/// loads the log that they hold or starts an empty one, and fails where the
/// two do not hold a log of a layout it knows. What the log holds depends on
/// the memory, so nothing is claimed of it.
#[verifier::external_body]
pub(crate) fn event_log_open(index: Segment, data: Segment) -> (r: Result<EventLog, InitError>) {
    match StableLog::init(index.inner, data.inner) {
        Ok(inner) => Ok(EventLog { inner }),
        Err(e) => Err(e),
    }
}

/// Calls `StableLog::append`. Where it succeeds the entry has been put
/// behind all others and its index, the number of entries before, is
/// returned; where the memory cannot grow it fails and the log holds what it
/// held.
#[verifier::external_body]
pub(crate) fn event_log_append(l: &mut EventLog, entry: &Vec<u8>) -> (r: Result<u64, WriteError>)
    ensures
        match r {
            Ok(index) => index == log_entries(*old(l)).len() && log_entries(*final(l))
                == log_entries(*old(l)).push(entry@),
            Err(_) => log_entries(*final(l)) == log_entries(*old(l)),
        },
{
    l.inner.append(entry)
}

/// Calls `StableLog::get`: the entry at `index`, or nothing where the log
/// has no more than `index` entries.
#[verifier::external_body]
pub(crate) fn event_log_get(l: &EventLog, index: u64) -> (r: Option<Vec<u8>>)
    ensures
        r is Some <==> index < log_entries(*l).len(),
        r matches Some(entry) ==> entry@ == log_entries(*l)[index as int],
{
    l.inner.get(index)
}

/// Calls `StableLog::len`: the number of entries.
#[verifier::external_body]
pub(crate) fn event_log_len(l: &EventLog) -> (r: u64)
    ensures
        r == log_entries(*l).len(),
{
    l.inner.len()
}

/// The segments of the memory, and which tags have been handed out.
pub struct Segments {
    manager: SegmentManager,
    claimed: Ghost<Set<u8>>,
}

impl Segments {
    /// The tags whose segments have been handed out.
    pub closed spec fn claimed(&self) -> Set<u8> {
        self.claimed@
    }

    /// Takes over the memory. No segment has been handed out yet.
    pub fn open() -> (r: Segments)
        ensures
            r.claimed() == Set::<u8>::empty(),
    {
        Segments { manager: manager_open(), claimed: Ghost(Set::<u8>::empty()) }
    }

    /// Hands out the segment that `tag` names. A segment backs one
    /// structure only, so each tag can be claimed once.
    pub fn claim(&mut self, tag: u8) -> (r: Segment)
        requires
            tag != UNUSABLE_TAG,
            !old(self).claimed().contains(tag),
        ensures
            final(self).claimed() == old(self).claimed().insert(tag),
    {
        let segment = manager_segment(&self.manager, tag);
        self.claimed = Ghost(self.claimed@.insert(tag));
        segment
    }
}

} // verus!
