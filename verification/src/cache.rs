//! The cache instance: store, change bus and staleness clock in one handle.
//!
//! One long-lived instance is constructed explicitly and shared with every
//! consumer; all store mutation goes through the single decoder task that
//! calls `handle_message`, so mutations are totally ordered. Consumers read
//! through `lookup` and wake on the bus.

use vstd::prelude::*;

use crate::bus::ChangeBus;
use crate::bytes::{dec_of_i64, i64_to_dec};
use crate::decode::{decode_frame, sp_decode, FeedOp, FeedOpView};
use crate::errors::LobbyCacheError;
use crate::model::{lobbies_view, FollowUpView, Lobby, LobbyView};
use crate::store::{sweep_model, CacheEntryView, LobbyStore};

verus! {

/// How long after the last parseable batch the cache may still be trusted:
/// consumers must treat it as unusable beyond this, whatever the socket
/// says about itself.
pub const STALE_SECONDS: u64 = 60;

/// The entries after overwriting each record of `tbl` in order, every one
/// sighted at `now`. A later binding of the same key wins.
pub open spec fn upserts_model(
    m: Map<Seq<u8>, CacheEntryView>,
    tbl: Seq<(Seq<u8>, LobbyView)>,
    now: u64,
) -> Map<Seq<u8>, CacheEntryView>
    decreases tbl.len(),
{
    if tbl.len() == 0 {
        m
    } else {
        upserts_model(m, tbl.subrange(0, tbl.len() - 1), now).insert(
            tbl[tbl.len() - 1].0,
            CacheEntryView { record: tbl[tbl.len() - 1].1, last_seen: now },
        )
    }
}

/// The entries after deleting each identifier of `ids` in order; an
/// identifier keys the store by its decimal rendering.
pub open spec fn deletes_model(m: Map<Seq<u8>, CacheEntryView>, ids: Seq<i64>) -> Map<
    Seq<u8>,
    CacheEntryView,
>
    decreases ids.len(),
{
    if ids.len() == 0 {
        m
    } else {
        deletes_model(m, ids.subrange(0, ids.len() - 1)).remove(dec_of_i64(ids[ids.len() - 1]))
    }
}

/// One batch applied to the entries `m` at time `now`: on a reset the store
/// is emptied first, then the deletes are applied, then the overwrites, and
/// the freshness sweep runs last.
pub open spec fn batch_model(
    m: Map<Seq<u8>, CacheEntryView>,
    overwrite: Seq<(Seq<u8>, LobbyView)>,
    delete: Seq<i64>,
    reset: bool,
    now: u64,
) -> Map<Seq<u8>, CacheEntryView> {
    let base = if reset {
        Map::empty()
    } else {
        m
    };
    sweep_model(upserts_model(deletes_model(base, delete), overwrite, now), now)
}

/// What one decoded operation does to the entries `m` at time `now`.
pub open spec fn op_model(
    m: Map<Seq<u8>, CacheEntryView>,
    op: FeedOpView,
    now: u64,
) -> Map<Seq<u8>, CacheEntryView> {
    match op {
        FeedOpView::FullSnapshot(tbl) => batch_model(m, tbl, Seq::empty(), true, now),
        FeedOpView::Incremental(f) => batch_model(m, f.updatedlobbies, f.deletedlobbies, false, now),
        FeedOpView::Unrecognized(_) => m,
    }
}

/// Must the bus wake the subscribers for this operation? Exactly when the
/// change set is non-empty, or a reset occurred even with an empty set; a
/// frame that fits no shape never notifies.
pub open spec fn sp_notifies(op: FeedOpView) -> bool {
    match op {
        FeedOpView::FullSnapshot(_) => true,
        FeedOpView::Incremental(f) => f.updatedlobbies.len() > 0 || f.deletedlobbies.len() > 0,
        FeedOpView::Unrecognized(_) => false,
    }
}

/// A full snapshot determines the entries on its own: it wipes whatever
/// stood before, so two stores that process the identical snapshot at the
/// same time end up identical, whatever they held.
pub proof fn lemma_snapshot_determines_entries(
    m1: Map<Seq<u8>, CacheEntryView>,
    m2: Map<Seq<u8>, CacheEntryView>,
    tbl: Seq<(Seq<u8>, LobbyView)>,
    now: u64,
)
    ensures
        op_model(m1, FeedOpView::FullSnapshot(tbl), now) == op_model(
            m2,
            FeedOpView::FullSnapshot(tbl),
            now,
        ),
{
}

/// Applying an identical full-snapshot message twice leaves the entries
/// exactly as one application left them: snapshots are idempotent.
pub proof fn lemma_snapshot_idempotent(
    m: Map<Seq<u8>, CacheEntryView>,
    tbl: Seq<(Seq<u8>, LobbyView)>,
    now: u64,
)
    ensures
        op_model(
            op_model(m, FeedOpView::FullSnapshot(tbl), now),
            FeedOpView::FullSnapshot(tbl),
            now,
        ) == op_model(m, FeedOpView::FullSnapshot(tbl), now),
{
}

/// Overwrites that never touch `k` leave the entry under `k` alone.
proof fn lemma_upserts_untouched(
    m0: Map<Seq<u8>, CacheEntryView>,
    tbl: Seq<(Seq<u8>, LobbyView)>,
    now: u64,
    k: Seq<u8>,
)
    requires
        forall|i: int| 0 <= i < tbl.len() ==> (#[trigger] tbl[i]).0 != k,
    ensures
        upserts_model(m0, tbl, now).dom().contains(k) == m0.dom().contains(k),
        m0.dom().contains(k) ==> upserts_model(m0, tbl, now)[k] == m0[k],
    decreases tbl.len(),
{
    if tbl.len() > 0 {
        let front = tbl.subrange(0, tbl.len() - 1);
        lemma_upserts_untouched(m0, front, now, k);
    }
}

/// Deletes only remove: an entry that survives them is unchanged.
proof fn lemma_deletes_value(m0: Map<Seq<u8>, CacheEntryView>, ids: Seq<i64>, k: Seq<u8>)
    ensures
        deletes_model(m0, ids).dom().contains(k) ==> m0.dom().contains(k) && deletes_model(
            m0,
            ids,
        )[k] == m0[k],
    decreases ids.len(),
{
    if ids.len() > 0 {
        lemma_deletes_value(m0, ids.subrange(0, ids.len() - 1), k);
    }
}

/// Whatever survives a batch is fresh: the sweep at the batch's end admits
/// no entry whose sighting fell out of the freshness window.
pub proof fn lemma_batch_entries_fresh(
    m: Map<Seq<u8>, CacheEntryView>,
    overwrite: Seq<(Seq<u8>, LobbyView)>,
    delete: Seq<i64>,
    reset: bool,
    now: u64,
    k: Seq<u8>,
)
    requires
        batch_model(m, overwrite, delete, reset, now).dom().contains(k),
    ensures
        crate::store::entry_fresh(batch_model(m, overwrite, delete, reset, now)[k], now),
{
}

/// An entry whose last sighting lies further back than the freshness
/// window is absent after the next batch, explicit delete or not — as long
/// as the batch did not sight it anew.
pub proof fn lemma_stale_entry_absent(
    m: Map<Seq<u8>, CacheEntryView>,
    overwrite: Seq<(Seq<u8>, LobbyView)>,
    delete: Seq<i64>,
    reset: bool,
    now: u64,
    k: Seq<u8>,
)
    requires
        m.dom().contains(k),
        now > m[k].last_seen + crate::store::TTL_SECONDS,
        forall|i: int| 0 <= i < overwrite.len() ==> (#[trigger] overwrite[i]).0 != k,
    ensures
        !batch_model(m, overwrite, delete, reset, now).dom().contains(k),
{
    let base: Map<Seq<u8>, CacheEntryView> = if reset {
        Map::empty()
    } else {
        m
    };
    let after_deletes = deletes_model(base, delete);
    let after_upserts = upserts_model(after_deletes, overwrite, now);
    lemma_upserts_untouched(after_deletes, overwrite, now, k);
    lemma_deletes_value(base, delete, k);
    if after_upserts.dom().contains(k) {
        assert(after_upserts[k] == m[k]);
        assert(!crate::store::entry_fresh(m[k], now));
    }
}

/// Mathematical image of a `LobbyCache`: its entries and the staleness
/// clock.
pub struct LobbyCacheView {
    pub entries: Map<Seq<u8>, CacheEntryView>,
    pub last_update: Option<u64>,
}

/// The one long-lived cache instance handed to every consumer.
pub struct LobbyCache {
    store: LobbyStore,
    bus: ChangeBus,
    last_update: Option<u64>,
}

impl View for LobbyCache {
    type V = LobbyCacheView;

    closed spec fn view(&self) -> LobbyCacheView {
        LobbyCacheView { entries: self.store@, last_update: self.last_update }
    }
}

impl LobbyCache {
    /// An empty cache with no update seen yet.
    pub fn new() -> (r: Self)
        ensures
            r@.entries == Map::<Seq<u8>, CacheEntryView>::empty(),
            r@.last_update is None,
    {
        LobbyCache { store: LobbyStore::new(), bus: ChangeBus::new(), last_update: None }
    }

    /// A new subscription on the change bus.
    pub fn subscribe(&self) -> tokio::sync::broadcast::Receiver<()> {
        self.bus.subscribe()
    }

    /// The record under `key`, if the cache holds one: a copy, read without
    /// blocking writers.
    pub fn lookup(&self, key: &Vec<u8>) -> (r: Option<Lobby>)
        ensures
            match r {
                Some(l) => self@.entries.dom().contains(key@) && l@ == self@.entries[key@].record,
                None => !self@.entries.dom().contains(key@),
            },
    {
        self.store.lookup(key)
    }

    /// When the last parseable batch was processed, if any was.
    pub fn last_update_time(&self) -> (r: Option<u64>)
        ensures
            r == self@.last_update,
    {
        self.last_update
    }

    /// May the cache be trusted at time `now`? Only when a parseable batch
    /// arrived within the staleness window — independent of whether the
    /// socket reports itself connected.
    pub fn cache_usable(&self, now: u64) -> (r: bool)
        ensures
            r == match self@.last_update {
                Some(t) => now <= t || now - t <= STALE_SECONDS,
                None => false,
            },
    {
        match self.last_update {
            Some(t) => now <= t || now - t <= STALE_SECONDS,
            None => false,
        }
    }

    /// Apply one decoded batch: on `reset` clear the store, then apply the
    /// deletes, then the overwrites (each sighted at `now`), sweep the
    /// freshness window, advance the staleness clock, and wake the bus
    /// exactly when something could have changed.
    pub fn handle_lobby_update(
        &mut self,
        overwrite_lobbies: Vec<(Vec<u8>, Lobby)>,
        delete_lobbies: &Vec<i64>,
        reset: bool,
        now: u64,
    ) -> (notified: bool)
        ensures
            final(self)@.entries == batch_model(
                old(self)@.entries,
                lobbies_view(overwrite_lobbies@),
                delete_lobbies@,
                reset,
                now,
            ),
            final(self)@.last_update == Some(now),
            notified == (overwrite_lobbies@.len() > 0 || delete_lobbies@.len() > 0 || reset),
    {
        let notified = overwrite_lobbies.len() > 0 || delete_lobbies.len() > 0 || reset;
        if reset {
            self.store.clear();
        }
        let ghost base = self.store@;

        let mut d: usize = 0;
        while d < delete_lobbies.len()
            invariant
                d <= delete_lobbies.len(),
                self.store@ == deletes_model(base, delete_lobbies@.subrange(0, d as int)),
            decreases delete_lobbies.len() - d,
        {
            let key = i64_to_dec(delete_lobbies[d]);
            self.store.remove(&key);
            proof {
                assert(delete_lobbies@.subrange(0, d + 1).subrange(0, d as int)
                    =~= delete_lobbies@.subrange(0, d as int));
            }
            d += 1;
        }
        proof {
            assert(delete_lobbies@.subrange(0, delete_lobbies@.len() as int) =~= delete_lobbies@);
        }
        let ghost after_deletes = self.store@;

        let mut rest = overwrite_lobbies;
        let ghost full = rest@;
        let ghost done: int = 0;
        while rest.len() > 0
            invariant
                0 <= done <= full.len(),
                rest@ =~= full.subrange(done, full.len() as int),
                self.store@ == upserts_model(
                    after_deletes,
                    lobbies_view(full.subrange(0, done)),
                    now,
                ),
            decreases rest.len(),
        {
            let (key, record) = rest.remove(0);
            proof {
                assert(full[done] == (key, record));
            }
            self.store.upsert(key, record, now);
            proof {
                let prev = full.subrange(0, done);
                let next = full.subrange(0, done + 1);
                assert(next.subrange(0, next.len() - 1) =~= prev);
                assert(lobbies_view(next).subrange(0, lobbies_view(next).len() - 1)
                    =~= lobbies_view(prev));
                assert(lobbies_view(next)[lobbies_view(next).len() - 1] == (
                    full[done].0@,
                    full[done].1@,
                ));
                assert(rest@ =~= full.subrange(done + 1, full.len() as int));
            }
            proof {
                done = done + 1;
            }
        }
        proof {
            assert(full.subrange(0, done) =~= full);
        }
        self.store.sweep(now);
        self.last_update = Some(now);
        if notified {
            self.bus.notify();
        }
        notified
    }

    /// Decode one raw frame and apply what it stands for. A full snapshot
    /// replaces the store wholesale; an incremental batch applies its
    /// deletes then its overwrites; either advances the staleness clock and
    /// is followed by the freshness sweep. A frame that fits neither shape
    /// changes nothing and is returned as the parsing error — the
    /// connection must stay open. `Ok` carries whether the bus was woken.
    pub fn handle_message(&mut self, frame: &Vec<u8>, now: u64) -> (r: Result<
        bool,
        LobbyCacheError,
    >)
        ensures
            final(self)@.entries == op_model(old(self)@.entries, sp_decode(frame@), now),
            match r {
                Ok(notified) => {
                    &&& !(sp_decode(frame@) is Unrecognized)
                    &&& final(self)@.last_update == Some(now)
                    &&& notified == sp_notifies(sp_decode(frame@))
                },
                Err(e) => {
                    &&& match sp_decode(frame@) {
                        FeedOpView::Unrecognized(pe) => e matches LobbyCacheError::Parsing(ex)
                            && ex@ == pe,
                        _ => false,
                    }
                    &&& final(self)@.last_update == old(self)@.last_update
                },
            },
    {
        match decode_frame(frame) {
            FeedOp::FullSnapshot(m) => {
                let empty_ids: Vec<i64> = Vec::new();
                assert(empty_ids@ =~= Seq::<i64>::empty());
                let notified = self.handle_lobby_update(m.allcurrentlobbies, &empty_ids, true, now);
                Ok(notified)
            },
            FeedOp::Incremental(m) => {
                let notified = self.handle_lobby_update(
                    m.updatedlobbies,
                    &m.deletedlobbies,
                    false,
                    now,
                );
                Ok(notified)
            },
            FeedOp::Unrecognized(e) => Err(LobbyCacheError::Parsing(e)),
        }
    }
}

} // verus!
