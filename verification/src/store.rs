//! The lobby store: a concurrent key-to-record table with a freshness
//! sweep.
//!
//! The table itself is dashmap's concurrent map; what the library states
//! about it is written over `table_entries`, the name given to its
//! contents. Every entry carries the time it was last seen; a sweep after
//! every batch removes the entries whose sighting fell out of the
//! freshness window.

use vstd::prelude::*;

use crate::model::{Lobby, LobbyView};

verus! {

/// The freshness window: an entry not sighted for longer is swept.
pub const TTL_SECONDS: u64 = 120;

/// One cached record and the time (seconds) it was last sighted.
#[derive(Debug, Clone)]
pub struct CacheEntry {
    pub record: Lobby,
    pub last_seen: u64,
}

/// Mathematical image of a `CacheEntry`.
pub struct CacheEntryView {
    pub record: LobbyView,
    pub last_seen: u64,
}

impl View for CacheEntry {
    type V = CacheEntryView;

    open spec fn view(&self) -> CacheEntryView {
        CacheEntryView { record: self.record@, last_seen: self.last_seen }
    }
}

/// Is the entry still inside the freshness window at time `now`? A sighting
/// that lies in the future counts as fresh: the sweep never owes a removal
/// to a clock that went backwards.
pub open spec fn entry_fresh(e: CacheEntryView, now: u64) -> bool {
    now <= e.last_seen || now - e.last_seen <= TTL_SECONDS
}

/// The entries of `m` still fresh at `now`.
pub open spec fn sweep_model(m: Map<Seq<u8>, CacheEntryView>, now: u64) -> Map<
    Seq<u8>,
    CacheEntryView,
> {
    m.restrict(Set::new(|k: Seq<u8>| m.dom().contains(k) && entry_fresh(m[k], now)))
}

/// Is the entry still inside the freshness window, as `entry_fresh` states
/// it?
pub fn entry_is_fresh(e: &CacheEntry, now: u64) -> (r: bool)
    ensures
        r == entry_fresh(e@, now),
{
    now <= e.last_seen || now - e.last_seen <= TTL_SECONDS
}

#[verifier::external_type_specification]
#[verifier::external_body]
#[verifier::reject_recursive_types(K)]
#[verifier::reject_recursive_types(V)]
#[verifier::reject_recursive_types(S)]
pub struct ExDashMap<K, V, S>(dashmap::DashMap<K, V, S>);

/// The empty contents.
pub open spec fn empty_entries() -> Map<Seq<u8>, CacheEntryView> {
    Map::empty()
}

/// What the table holds: its keys and, for each, the cached entry.
pub uninterp spec fn table_entries(
    m: dashmap::DashMap<Vec<u8>, CacheEntry, std::hash::RandomState>,
) -> Map<Seq<u8>, CacheEntryView>;

/// Relies on dashmap::DashMap::new: a map with no entries.
#[verifier::external_body]
fn table_new() -> (r: dashmap::DashMap<Vec<u8>, CacheEntry, std::hash::RandomState>)
    ensures
        table_entries(r) == empty_entries(),
{
    dashmap::DashMap::new()
}

/// Relies on dashmap::DashMap::insert: binds the key to the value,
/// replacing any earlier binding.
#[verifier::external_body]
fn table_insert(
    m: &mut dashmap::DashMap<Vec<u8>, CacheEntry, std::hash::RandomState>,
    k: Vec<u8>,
    v: CacheEntry,
)
    ensures
        table_entries(*final(m)) == table_entries(*old(m)).insert(k@, v@),
{
    m.insert(k, v);
}

/// Relies on dashmap::DashMap::remove: unbinds the key if it was bound.
#[verifier::external_body]
fn table_remove(m: &mut dashmap::DashMap<Vec<u8>, CacheEntry, std::hash::RandomState>, k: &Vec<u8>)
    ensures
        table_entries(*final(m)) == table_entries(*old(m)).remove(k@),
{
    m.remove(k);
}

/// Relies on dashmap::DashMap::get, cloning the entry out of the returned
/// guard: the value bound to the key, if the key is bound.
#[verifier::external_body]
fn table_get(
    m: &dashmap::DashMap<Vec<u8>, CacheEntry, std::hash::RandomState>,
    k: &Vec<u8>,
) -> (r: Option<CacheEntry>)
    ensures
        match r {
            Some(e) => table_entries(*m).dom().contains(k@) && e@ == table_entries(*m)[k@],
            None => !table_entries(*m).dom().contains(k@),
        },
{
    m.get(k).map(|e| e.value().clone())
}

/// Relies on dashmap::DashMap::clear: removes every entry.
#[verifier::external_body]
fn table_clear(m: &mut dashmap::DashMap<Vec<u8>, CacheEntry, std::hash::RandomState>)
    ensures
        table_entries(*final(m)) == empty_entries(),
{
    m.clear();
}

/// Relies on dashmap::DashMap::retain: keeps exactly the entries the
/// closure approves of; the closure keeps the entries still fresh at `now`.
#[verifier::external_body]
fn table_retain_fresh(
    m: &mut dashmap::DashMap<Vec<u8>, CacheEntry, std::hash::RandomState>,
    now: u64,
)
    ensures
        table_entries(*final(m)) == sweep_model(table_entries(*old(m)), now),
{
    m.retain(|_, e| entry_is_fresh(e, now));
}

/// Relies on dashmap::DashMap::len: the number of entries held.
#[verifier::external_body]
fn table_len(m: &dashmap::DashMap<Vec<u8>, CacheEntry, std::hash::RandomState>) -> (r: usize)
    ensures
        r as nat == table_entries(*m).dom().len(),
{
    m.len()
}

/// The key-to-record table. Writers hand every mutation a timestamp; reads
/// never block writers (the map is dashmap's sharded concurrent map).
pub struct LobbyStore {
    table: dashmap::DashMap<Vec<u8>, CacheEntry, std::hash::RandomState>,
}

impl View for LobbyStore {
    type V = Map<Seq<u8>, CacheEntryView>;

    closed spec fn view(&self) -> Map<Seq<u8>, CacheEntryView> {
        table_entries(self.table)
    }
}

impl LobbyStore {
    /// An empty store.
    pub fn new() -> (r: Self)
        ensures
            r@ == Map::<Seq<u8>, CacheEntryView>::empty(),
    {
        LobbyStore { table: table_new() }
    }

    /// The record under `key`, if the store holds one. Returns a copy: the
    /// caller reads a snapshot, never a live reference.
    pub fn lookup(&self, key: &Vec<u8>) -> (r: Option<Lobby>)
        ensures
            match r {
                Some(l) => self@.dom().contains(key@) && l@ == self@[key@].record,
                None => !self@.dom().contains(key@),
            },
    {
        match table_get(&self.table, key) {
            Some(e) => Some(e.record),
            None => None,
        }
    }

    /// When the record under `key` was last sighted, if the store holds
    /// one.
    pub fn last_seen(&self, key: &Vec<u8>) -> (r: Option<u64>)
        ensures
            match r {
                Some(t) => self@.dom().contains(key@) && t == self@[key@].last_seen,
                None => !self@.dom().contains(key@),
            },
    {
        match table_get(&self.table, key) {
            Some(e) => Some(e.last_seen),
            None => None,
        }
    }

    /// Overwrite (never merge) the record under `key`, sighted at `now`.
    pub fn upsert(&mut self, key: Vec<u8>, record: Lobby, now: u64)
        ensures
            final(self)@ == old(self)@.insert(
                key@,
                CacheEntryView { record: record@, last_seen: now },
            ),
    {
        let ghost k = key@;
        let ghost rv = record@;
        table_insert(&mut self.table, key, CacheEntry { record, last_seen: now });
    }

    /// Drop the record under `key`, if any.
    pub fn remove(&mut self, key: &Vec<u8>)
        ensures
            final(self)@ == old(self)@.remove(key@),
    {
        table_remove(&mut self.table, key);
    }

    /// Drop every record.
    pub fn clear(&mut self)
        ensures
            final(self)@ == Map::<Seq<u8>, CacheEntryView>::empty(),
    {
        table_clear(&mut self.table);
    }

    /// The freshness sweep: drop every entry whose last sighting fell out
    /// of the window.
    pub fn sweep(&mut self, now: u64)
        ensures
            final(self)@ == sweep_model(old(self)@, now),
    {
        table_retain_fresh(&mut self.table, now);
    }

    /// How many records the store holds.
    pub fn len(&self) -> (r: usize)
        ensures
            r as nat == self@.dom().len(),
    {
        table_len(&self.table)
    }
}

/// Nothing fresh ever leaves a sweep: after `sweep`, no entry's sighting
/// lies further back than the freshness window.
pub proof fn lemma_sweep_removes_stale(m: Map<Seq<u8>, CacheEntryView>, now: u64)
    ensures
        forall|k: Seq<u8>|
            sweep_model(m, now).dom().contains(k) ==> entry_fresh(
                #[trigger] sweep_model(m, now)[k],
                now,
            ),
        forall|k: Seq<u8>|
            m.dom().contains(k) && entry_fresh(m[k], now) ==> sweep_model(m, now).dom().contains(
                k,
            ),
        forall|k: Seq<u8>|
            sweep_model(m, now).dom().contains(k) ==> m.dom().contains(k) && sweep_model(m, now)[k]
                == m[k],
{
}

} // verus!
