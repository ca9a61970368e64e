//! Watch admission: the bounded gate on concurrently-live watch
//! subscriptions.
//!
//! The table tracks at most five distinct keys at once; each key holds a
//! FIFO queue of at most three watchers, newest first. Registering on a
//! full queue evicts exactly the oldest watcher — the one deliberate drop
//! policy in the whole system, a safety valve favouring the newest
//! requester. A key whose queue empties is dropped from the table
//! entirely, so a later register for it succeeds purely on its own merits.
//!
//! The table only decides; it holds no channels. `register` hands back the
//! identifier of the watcher to evict, if any, and the caller sends that
//! watcher its cancellation signal.

use vstd::prelude::*;

use crate::bytes::bytes_eq;
use crate::errors::CommandError;

verus! {

/// How many distinct keys may be tracked at once.
pub const MAX_TRACKED_KEYS: usize = 5;

/// How many watchers one key's queue may hold.
pub const MAX_WATCHERS_PER_KEY: usize = 3;

/// The table: an association list of key and watcher queue, newest watcher
/// first in each queue.
pub struct WatchAdmission {
    table: Vec<(Vec<u8>, Vec<u64>)>,
    next_id: u64,
}

/// First position of `k` among the keys of `t` from `n` on; `t.len()` when
/// absent.
pub open spec fn find_key_from(t: Seq<(Seq<u8>, Seq<u64>)>, k: Seq<u8>, n: int) -> int
    decreases t.len() - n,
{
    if n < 0 || n >= t.len() {
        t.len() as int
    } else if t[n].0 == k {
        n
    } else {
        find_key_from(t, k, n + 1)
    }
}

/// First position of `k` among the keys of `t`; `t.len()` when absent.
pub open spec fn find_key(t: Seq<(Seq<u8>, Seq<u64>)>, k: Seq<u8>) -> int {
    find_key_from(t, k, 0)
}

/// Does the table track `k`?
pub open spec fn has_key(t: Seq<(Seq<u8>, Seq<u64>)>, k: Seq<u8>) -> bool {
    find_key(t, k) < t.len()
}

/// The queue `q` with every occurrence of `id` withdrawn, order kept;
/// `acc` holds the part already scanned.
pub open spec fn remove_id_from(q: Seq<u64>, id: u64, n: int, acc: Seq<u64>) -> Seq<u64>
    decreases q.len() - n,
{
    if n < 0 || n >= q.len() {
        acc
    } else if q[n] == id {
        remove_id_from(q, id, n + 1, acc)
    } else {
        remove_id_from(q, id, n + 1, acc.push(q[n]))
    }
}

/// The queue `q` with every occurrence of `id` withdrawn, order kept.
pub open spec fn remove_id(q: Seq<u64>, id: u64) -> Seq<u64> {
    remove_id_from(q, id, 0, Seq::empty())
}

/// What `find_key_from` finds: a position that holds the key, before which
/// nothing holds it; or the length, when nothing holds it at all.
pub proof fn lemma_find_key_spec(t: Seq<(Seq<u8>, Seq<u64>)>, k: Seq<u8>, n: int)
    requires
        0 <= n <= t.len(),
    ensures
        n <= find_key_from(t, k, n) <= t.len(),
        find_key_from(t, k, n) < t.len() ==> t[find_key_from(t, k, n)].0 == k,
        forall|j: int| n <= j < find_key_from(t, k, n) ==> (#[trigger] t[j]).0 != k,
        find_key_from(t, k, n) == t.len() ==> forall|j: int|
            n <= j < t.len() ==> (#[trigger] t[j]).0 != k,
    decreases t.len() - n,
{
    if n < t.len() && t[n].0 != k {
        lemma_find_key_spec(t, k, n + 1);
    }
}

/// Where no key from `n` on matches, nothing is found.
pub proof fn lemma_find_key_absent(t: Seq<(Seq<u8>, Seq<u64>)>, k: Seq<u8>, n: int)
    requires
        0 <= n <= t.len(),
        forall|j: int| n <= j < t.len() ==> (#[trigger] t[j]).0 != k,
    ensures
        find_key_from(t, k, n) == t.len(),
    decreases t.len() - n,
{
    if n < t.len() {
        lemma_find_key_absent(t, k, n + 1);
    }
}

impl View for WatchAdmission {
    type V = Seq<(Seq<u8>, Seq<u64>)>;

    closed spec fn view(&self) -> Seq<(Seq<u8>, Seq<u64>)> {
        self.table@.map_values(|p: (Vec<u8>, Vec<u64>)| (p.0@, p.1@))
    }
}

impl WatchAdmission {
    /// The identifier the next registered watcher will get.
    pub closed spec fn next_id_spec(&self) -> u64 {
        self.next_id
    }

    /// Well-formedness: keys are distinct, no queue is empty or over its
    /// bound, and every issued identifier lies below the counter.
    pub open spec fn wf(&self) -> bool {
        &&& forall|i: int, j: int|
            0 <= i < j < self@.len() ==> (#[trigger] self@[i]).0 != (#[trigger] self@[j]).0
        &&& forall|i: int|
            0 <= i < self@.len() ==> 1 <= (#[trigger] self@[i]).1.len() <= MAX_WATCHERS_PER_KEY
        &&& forall|i: int, a: int, b: int|
            0 <= i < self@.len() && 0 <= a < b < self@[i].1.len() ==> #[trigger] self@[i].1[a]
                != #[trigger] self@[i].1[b]
        &&& forall|i: int, a: int|
            0 <= i < self@.len() && 0 <= a < self@[i].1.len() ==> #[trigger] self@[i].1[a]
                < self.next_id_spec()
    }

    /// An empty table.
    pub fn new() -> (r: Self)
        ensures
            r@.len() == 0,
            r.wf(),
            r.next_id_spec() == 0,
    {
        WatchAdmission { table: Vec::new(), next_id: 0 }
    }

    /// How many distinct keys the table tracks.
    pub fn tracked_keys(&self) -> (r: usize)
        ensures
            r as nat == self@.len(),
    {
        self.table.len()
    }

    /// How many watcher identifiers have been issued: the value the next
    /// one will get. A caller tests this against the counter's headroom
    /// before registering.
    pub fn ids_issued(&self) -> (r: u64)
        ensures
            r == self.next_id_spec(),
    {
        self.next_id
    }

    /// The watcher queue under `key`, newest first, if the key is tracked.
    pub fn queue_of(&self, key: &Vec<u8>) -> (r: Option<Vec<u64>>)
        ensures
            match r {
                Some(q) => has_key(self@, key@) && q@ == self@[find_key(self@, key@)].1,
                None => !has_key(self@, key@),
            },
    {
        match self.position_of(key) {
            Some(i) => {
                let q = &self.table[i].1;
                let mut out: Vec<u64> = Vec::new();
                let mut n: usize = 0;
                while n < q.len()
                    invariant
                        n <= q.len(),
                        out@ =~= q@.subrange(0, n as int),
                    decreases q.len() - n,
                {
                    out.push(q[n]);
                    n += 1;
                }
                assert(out@ =~= q@);
                Some(out)
            },
            None => None,
        }
    }

    /// Position of `key` in the table, as `find_key` gives it.
    fn position_of(&self, key: &Vec<u8>) -> (r: Option<usize>)
        ensures
            match r {
                Some(i) => i as int == find_key(self@, key@) && (i as int) < self@.len()
                    && self@[i as int].0 == key@,
                None => !has_key(self@, key@),
            },
    {
        let mut n: usize = 0;
        while n < self.table.len()
            invariant
                n <= self.table.len(),
                self@.len() == self.table@.len(),
                forall|i: int|
                    0 <= i < self.table@.len() ==> #[trigger] self@[i] == (
                        self.table@[i].0@,
                        self.table@[i].1@,
                    ),
                find_key(self@, key@) == find_key_from(self@, key@, n as int),
            decreases self.table.len() - n,
        {
            if bytes_eq(&self.table[n].0, key) {
                return Some(n);
            }
            n += 1;
        }
        None
    }

    /// Admit a watcher for `key`.
    ///
    /// Fails with `TooManyLobbies` exactly when `key` is not yet tracked
    /// and the table is at its key bound — registering an already-tracked
    /// key never fails, whatever the global count. Otherwise the new
    /// watcher's identifier comes back together with the identifier of the
    /// evicted oldest watcher when the key's queue was full.
    ///
    /// The counter bound in `requires` is a machine limit: identifiers are
    /// never reused, so the table demands headroom for one more.
    pub fn register(&mut self, key: &Vec<u8>) -> (r: Result<(u64, Option<u64>), CommandError>)
        requires
            old(self).wf(),
            old(self).next_id_spec() < u64::MAX,
        ensures
            final(self).wf(),
            match r {
                Err(e) => {
                    &&& e == CommandError::TooManyLobbies
                    &&& !has_key(old(self)@, key@)
                    &&& old(self)@.len() >= MAX_TRACKED_KEYS
                    &&& final(self)@ == old(self)@
                    &&& final(self).next_id_spec() == old(self).next_id_spec()
                },
                Ok((id, evicted)) => {
                    &&& id == old(self).next_id_spec()
                    &&& final(self).next_id_spec() == old(self).next_id_spec() + 1
                    &&& if has_key(old(self)@, key@) {
                        let i = find_key(old(self)@, key@);
                        let q = old(self)@[i].1;
                        if q.len() < MAX_WATCHERS_PER_KEY {
                            evicted is None && final(self)@ == old(self)@.update(
                                i,
                                (key@, seq![id] + q),
                            )
                        } else {
                            evicted == Some(q[q.len() - 1]) && final(self)@ == old(self)@.update(
                                i,
                                (key@, seq![id] + q.subrange(0, q.len() - 1)),
                            )
                        }
                    } else {
                        &&& old(self)@.len() < MAX_TRACKED_KEYS
                        &&& evicted is None
                        &&& final(self)@ == old(self)@.push((key@, seq![id]))
                    }
                },
            },
    {
        let id = self.next_id;
        match self.position_of(key) {
            Some(i) => {
                let ghost oldt = self@;
                let ghost oldtab = self.table@;
                let ghost oldq = self@[i as int].1;
                proof {
                    assert(oldt[i as int] == (oldtab[i as int].0@, oldtab[i as int].1@));
                }
                let mut entry = self.table.remove(i);
                assert(entry.0@ == key@);
                assert(entry.1@ == oldq);
                let evicted: Option<u64> = if entry.1.len() >= MAX_WATCHERS_PER_KEY {
                    match entry.1.pop() {
                        Some(last) => Some(last),
                        None => None,
                    }
                } else {
                    None
                };
                entry.1.insert(0, id);
                let ghost newq = entry.1@;
                self.table.insert(i, entry);
                self.next_id = id + 1;
                proof {
                    if oldq.len() < MAX_WATCHERS_PER_KEY {
                        assert(newq =~= seq![id] + oldq);
                    } else {
                        assert(newq =~= seq![id] + oldq.subrange(0, oldq.len() - 1));
                    }
                    assert(self.table@ =~= oldtab.update(i as int, self.table@[i as int]));
                    assert(self@ =~~= oldt.update(i as int, (key@, newq)));
                    assert forall|j: int| 0 <= j < self@.len() implies (#[trigger] self@[j]).0
                        == oldt[j].0 by {
                        assert(oldt[i as int].0 == key@);
                    }
                    assert forall|j: int| 0 <= j < self@.len() && j != i implies #[trigger] self@[j]
                        == oldt[j] by {}
                    assert(forall|a: int|
                        0 <= a < oldq.len() ==> #[trigger] oldq[a] < id);
                    assert forall|a: int, b: int|
                        0 <= a < b < newq.len() implies #[trigger] newq[a] != #[trigger] newq[b] by {
                        assert(newq[0] == id);
                        if a > 0 {
                            assert(newq[a] == oldq[a - 1]);
                        }
                        assert(newq[b] == oldq[b - 1]);
                    }
                }
                Ok((id, evicted))
            },
            None => {
                if self.table.len() >= MAX_TRACKED_KEYS {
                    return Err(CommandError::TooManyLobbies);
                }
                let ghost oldt = self@;
                proof {
                    lemma_find_key_spec(oldt, key@, 0);
                }
                let mut q: Vec<u64> = Vec::new();
                q.push(id);
                let key_copy = crate::bytes::copy_bytes(key);
                self.table.push((key_copy, q));
                self.next_id = id + 1;
                proof {
                    assert(self@ =~~= oldt.push((key@, seq![id])));
                }
                Ok((id, None))
            },
        }
    }

    /// Withdraw watcher `id` from `key`'s queue. When the queue empties,
    /// the key leaves the table entirely: admission state is garbage
    /// collected, and nothing about this key weighs on later registers.
    pub fn unregister(&mut self, key: &Vec<u8>, id: u64)
        requires
            old(self).wf(),
            has_key(old(self)@, key@),
        ensures
            final(self).wf(),
            final(self).next_id_spec() == old(self).next_id_spec(),
            ({
                let i = find_key(old(self)@, key@);
                let q2 = remove_id(old(self)@[i].1, id);
                if q2.len() == 0 {
                    final(self)@ == old(self)@.remove(i)
                } else {
                    final(self)@ == old(self)@.update(i, (old(self)@[i].0, q2))
                }
            }),
    {
        match self.position_of(key) {
            Some(i) => {
                let ghost oldt = self@;
                let ghost oldtab = self.table@;
                let ghost oldq = self@[i as int].1;
                proof {
                    assert(oldt[i as int] == (oldtab[i as int].0@, oldtab[i as int].1@));
                }
                let entry = self.table.remove(i);
                assert(entry.0@ == oldt[i as int].0);
                assert(entry.1@ == oldq);
                let mut q2: Vec<u64> = Vec::new();
                let mut n: usize = 0;
                while n < entry.1.len()
                    invariant
                        n <= entry.1.len(),
                        oldq == entry.1@,
                        forall|a: int, b: int|
                            0 <= a < b < oldq.len() ==> #[trigger] oldq[a] != #[trigger] oldq[b],
                        remove_id(oldq, id) == remove_id_from(oldq, id, n as int, q2@),
                        q2@.len() <= n,
                        forall|x: int|
                            0 <= x < q2@.len() ==> exists|y: int|
                                0 <= y < n && #[trigger] q2@[x] == oldq[y],
                        forall|a: int, b: int|
                            0 <= a < b < q2@.len() ==> #[trigger] q2@[a] != #[trigger] q2@[b],
                    decreases entry.1.len() - n,
                {
                    if entry.1[n] != id {
                        let ghost prev = q2@;
                        q2.push(entry.1[n]);
                        proof {
                            let m = q2@.len() - 1;
                            assert(q2@[m] == oldq[n as int]);
                            assert forall|a: int| 0 <= a < m implies #[trigger] q2@[a] != q2@[m] by {
                                let y = choose|y: int| 0 <= y < n && prev[a] == oldq[y];
                                assert(oldq[y] != oldq[n as int]);
                            }
                        }
                    }
                    n += 1;
                }
                assert(q2@ == remove_id(oldq, id));
                if q2.len() > 0 {
                    self.table.insert(i, (entry.0, q2));
                    proof {
                        assert(self.table@ =~= oldtab.update(i as int, self.table@[i as int]));
                        assert(self@ =~~= oldt.update(i as int, (oldt[i as int].0, remove_id(
                            oldq,
                            id,
                        ))));
                        assert forall|j: int| 0 <= j < self@.len() && j != i implies
                            #[trigger] self@[j] == oldt[j] by {}
                    }
                } else {
                    proof {
                        assert(self@ =~~= oldt.remove(i as int));
                    }
                }
            },
            None => {
                proof {
                    assert(false);
                }
            },
        }
    }
}

/// After the last watcher for a key withdraws, the key is absent from the
/// table: a register that then follows is judged on its own merits alone.
pub proof fn lemma_empty_queue_drops_key(t: Seq<(Seq<u8>, Seq<u64>)>, k: Seq<u8>, id: u64)
    requires
        forall|i: int, j: int| 0 <= i < j < t.len() ==> (#[trigger] t[i]).0 != (#[trigger] t[j]).0,
        has_key(t, k),
        remove_id(t[find_key(t, k)].1, id).len() == 0,
    ensures
        !has_key(t.remove(find_key(t, k)), k),
{
    let i = find_key(t, k);
    lemma_find_key_spec(t, k, 0);
    let t2 = t.remove(i);
    assert forall|j: int| 0 <= j < t2.len() implies (#[trigger] t2[j]).0 != k by {
        if j < i {
            assert(t2[j] == t[j]);
        } else {
            assert(t2[j] == t[j + 1]);
        }
    }
    lemma_find_key_absent(t2, k, 0);
}

} // verus!
