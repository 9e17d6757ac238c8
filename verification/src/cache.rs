//! The message-session cache: the per-message, in-memory record tying an
//! accepted message to its subsequent attachment requests. Keyed by the
//! message UUID; an entry holds the narrowed message, the resolved address
//! row, and the indices of the attachments already uploaded. Sessions are
//! created when a message with attachments is accepted and evicted when the
//! terminal attachment succeeds.

use vstd::prelude::*;

use crate::db::Address;
use crate::email::Email;
use crate::text;

verus! {

/// One session: the narrowed message, its resolved address row, and the
/// progress made on its attachments.
pub struct CacheEntry {
    /// The accepted message, narrowed to its one valid recipient.
    pub email: Email,
    /// The resolved address row at acceptance time.
    pub address: Address,
    /// Indices of the attachments already uploaded successfully.
    pub attachments_processed: Vec<u16>,
    /// When the session was created, in microseconds.
    pub insertion_time: i64,
    /// When the session was last touched, in microseconds.
    pub last_updated: i64,
}

/// The process-wide session cache, with its processing metrics.
pub struct Cache {
    /// The sessions, keyed by message UUID; keys are unique.
    pub entries: Vec<(String, CacheEntry)>,
    /// How many sessions have been completed and evicted.
    pub num_processed: u64,
    /// Running approximate average session lifetime, in microseconds.
    pub avg_processing_time: u64,
}

/// The first entry under `key`, in insertion order.
pub open spec fn spec_find_key(es: Seq<(String, CacheEntry)>, key: Seq<char>) -> Option<int>
    decreases es.len(),
{
    if es.len() == 0 {
        None
    } else if es.first().0@ == key {
        Some(0)
    } else {
        match spec_find_key(es.drop_first(), key) {
            Some(i) => Some(i + 1),
            None => None,
        }
    }
}

/// No two entries share a key.
pub open spec fn spec_unique_keys(es: Seq<(String, CacheEntry)>) -> bool {
    forall|i: int, j: int|
        0 <= i < j < es.len() ==> (#[trigger] es[i].0@) != (#[trigger] es[j].0@)
}

pub proof fn lemma_find_key_ensures(es: Seq<(String, CacheEntry)>, key: Seq<char>)
    ensures
        match spec_find_key(es, key) {
            Some(i) => {
                &&& 0 <= i < es.len()
                &&& es[i].0@ == key
                &&& forall|j: int| 0 <= j < i ==> (#[trigger] es[j].0@) != key
            },
            None => forall|j: int| 0 <= j < es.len() ==> (#[trigger] es[j].0@) != key,
        },
    decreases es.len(),
{
    if es.len() > 0 && es.first().0@ != key {
        lemma_find_key_ensures(es.drop_first(), key);
        assert forall|j: int| 1 <= j < es.len() implies es.drop_first()[j - 1] == #[trigger] es[j]
        by {}
    }
}

pub proof fn lemma_find_key_prefix(es: Seq<(String, CacheEntry)>, key: Seq<char>, i: int)
    requires
        0 <= i < es.len(),
        es[i].0@ == key,
        forall|j: int| 0 <= j < i ==> (#[trigger] es[j].0@) != key,
    ensures
        spec_find_key(es, key) == Some(i),
    decreases i,
{
    if i > 0 {
        assert forall|j: int| 0 <= j < i - 1 implies (#[trigger] es.drop_first()[j].0@) != key by {
            assert(es.drop_first()[j] == es[j + 1]);
        }
        assert(es.drop_first()[i - 1] == es[i]);
        lemma_find_key_prefix(es.drop_first(), key, i - 1);
    }
}

/// The entry stored under `key`, if any.
pub open spec fn spec_get_es(es: Seq<(String, CacheEntry)>, key: Seq<char>) -> Option<CacheEntry> {
    match spec_find_key(es, key) {
        Some(i) => Some(es[i].1),
        None => None,
    }
}

/// Removing the entry at `i` does not disturb what is stored under any
/// other key.
pub proof fn lemma_get_after_remove(es: Seq<(String, CacheEntry)>, i: int, k: Seq<char>)
    requires
        0 <= i < es.len(),
        spec_unique_keys(es),
        k != es[i].0@,
    ensures
        spec_get_es(es.remove(i), k) == spec_get_es(es, k),
{
    let removed = es.remove(i);
    lemma_find_key_ensures(es, k);
    match spec_find_key(es, k) {
        Some(j) => {
            if j < i {
                assert(removed[j] == es[j]);
                assert forall|l: int| 0 <= l < j implies (#[trigger] removed[l].0@) != k by {
                    assert(removed[l] == es[l]);
                }
                lemma_find_key_prefix(removed, k, j);
            } else {
                assert(j != i);
                assert(removed[j - 1] == es[j]);
                assert forall|l: int| 0 <= l < j - 1 implies (#[trigger] removed[l].0@) != k by {
                    if l < i {
                        assert(removed[l] == es[l]);
                    } else {
                        assert(removed[l] == es[l + 1]);
                    }
                }
                lemma_find_key_prefix(removed, k, j - 1);
            }
        },
        None => {
            assert forall|l: int| 0 <= l < removed.len() implies (#[trigger] removed[l].0@)
                != k by {
                if l < i {
                    assert(removed[l] == es[l]);
                } else {
                    assert(removed[l] == es[l + 1]);
                }
            }
            lemma_find_key_ensures(removed, k);
        },
    }
}

/// Updating or appending the entry under one key does not disturb what is
/// stored under any other key.
pub proof fn lemma_get_after_update(
    es: Seq<(String, CacheEntry)>,
    es2: Seq<(String, CacheEntry)>,
    key: Seq<char>,
    k: Seq<char>,
)
    requires
        es2.len() == es.len() || es2.len() == es.len() + 1,
        forall|l: int| 0 <= l < es.len() ==> es2[l].0@ == (#[trigger] es[l].0@),
        forall|l: int| 0 <= l < es.len() && (#[trigger] es[l].0@) != key ==> es2[l] == es[l],
        es2.len() == es.len() + 1 ==> es2.last().0@ == key,
        k != key,
    ensures
        spec_get_es(es2, k) == spec_get_es(es, k),
{
    lemma_find_key_ensures(es, k);
    match spec_find_key(es, k) {
        Some(j) => {
            assert forall|l: int| 0 <= l < j implies (#[trigger] es2[l].0@) != k by {
                assert(es2[l].0@ == es[l].0@);
            }
            assert(es2[j] == es[j]);
            lemma_find_key_prefix(es2, k, j);
        },
        None => {
            assert forall|l: int| 0 <= l < es2.len() implies (#[trigger] es2[l].0@) != k by {
                if l < es.len() {
                    assert(es2[l].0@ == es[l].0@);
                }
            }
            lemma_find_key_ensures(es2, k);
        },
    }
}

impl Cache {
    /// The entry stored under `key`, if any.
    pub open spec fn spec_get(self, key: Seq<char>) -> Option<CacheEntry> {
        spec_get_es(self.entries@, key)
    }

    /// Whether a session exists for `key`.
    pub open spec fn spec_contains(self, key: Seq<char>) -> bool {
        self.spec_get(key) is Some
    }

    /// Keys are unique, so each UUID names at most one session.
    pub open spec fn wf(self) -> bool {
        spec_unique_keys(self.entries@)
    }

    /// An empty cache.
    pub fn new() -> (r: Cache)
        ensures
            r.wf(),
            forall|k: Seq<char>| !r.spec_contains(k),
            r.num_processed == 0,
            r.avg_processing_time == 0,
    {
        let r = Cache { entries: Vec::new(), num_processed: 0, avg_processing_time: 0 };
        proof {
            assert forall|k: Seq<char>| !r.spec_contains(k) by {
                lemma_find_key_ensures(r.entries@, k);
            }
        }
        r
    }

    /// Whether a session exists for `key`.
    pub fn contains(&self, key: &str) -> (r: bool)
        ensures
            r == self.spec_contains(key@),
    {
        proof {
            lemma_find_key_ensures(self.entries@, key@);
        }
        let n = self.entries.len();
        let mut i: usize = 0;
        while i < n
            invariant
                n == self.entries@.len(),
                i <= n,
                forall|j: int| 0 <= j < i ==> (#[trigger] self.entries@[j].0@) != key@,
            decreases n - i,
        {
            if text::str_eq(self.entries[i].0.as_str(), key) {
                proof {
                    lemma_find_key_prefix(self.entries@, key@, i as int);
                }
                return true;
            }
            i = i + 1;
        }
        proof {
            lemma_find_key_ensures(self.entries@, key@);
        }
        false
    }

    /// The session for `key`, if one exists.
    pub fn get(&self, key: &str) -> (r: Option<&CacheEntry>)
        ensures
            match r {
                Some(e) => self.spec_get(key@) == Some(*e),
                None => !self.spec_contains(key@),
            },
    {
        let n = self.entries.len();
        let mut i: usize = 0;
        while i < n
            invariant
                n == self.entries@.len(),
                i <= n,
                forall|j: int| 0 <= j < i ==> (#[trigger] self.entries@[j].0@) != key@,
            decreases n - i,
        {
            if text::str_eq(self.entries[i].0.as_str(), key) {
                proof {
                    lemma_find_key_prefix(self.entries@, key@, i as int);
                }
                return Some(&self.entries[i].1);
            }
            i = i + 1;
        }
        proof {
            lemma_find_key_ensures(self.entries@, key@);
        }
        None
    }
}

impl Cache {
    /// Create or replace the session under `key`, stamping its insertion
    /// time. No other session and no metric is disturbed.
    pub fn insert(&mut self, key: String, entry: CacheEntry, now: i64)
        requires
            old(self).wf(),
        ensures
            final(self).wf(),
            final(self).spec_get(key@) == Some(
                (CacheEntry { insertion_time: now, ..entry }),
            ),
            forall|k: Seq<char>| k != key@ ==> final(self).spec_get(k) == old(self).spec_get(k),
            final(self).num_processed == old(self).num_processed,
            final(self).avg_processing_time == old(self).avg_processing_time,
    {
        let stamped = CacheEntry { insertion_time: now, ..entry };
        let ghost es = self.entries@;
        let n = self.entries.len();
        let mut i: usize = 0;
        while i < n
            invariant
                n == self.entries@.len(),
                i <= n,
                self.entries@ == es,
                es == old(self).entries@,
                spec_unique_keys(es),
                stamped == (CacheEntry { insertion_time: now, ..entry }),
                self.num_processed == old(self).num_processed,
                self.avg_processing_time == old(self).avg_processing_time,
                forall|j: int| 0 <= j < i ==> (#[trigger] self.entries@[j].0@) != key@,
            decreases n - i,
        {
            if text::str_eq(self.entries[i].0.as_str(), key.as_str()) {
                let ghost old_pair_key = self.entries@[i as int].0@;
                self.entries[i] = (key, stamped);
                proof {
                    let es2 = self.entries@;
                    assert forall|l: int| 0 <= l < es.len() implies es2[l].0@ == (
                    #[trigger] es[l].0@) by {
                        if l != i {
                            assert(es2[l] == es[l]);
                        }
                    }
                    lemma_find_key_prefix(es2, key@, i as int);
                    assert forall|k: Seq<char>| k != key@ implies spec_get_es(es2, k)
                        == spec_get_es(es, k) by {
                        lemma_get_after_update(es, es2, key@, k);
                    }
                    assert forall|a: int, b: int| 0 <= a < b < es2.len() implies (
                    #[trigger] es2[a].0@) != (#[trigger] es2[b].0@) by {
                        assert(es2[a].0@ == es[a].0@ && es2[b].0@ == es[b].0@);
                    }
                }
                return ;
            }
            i = i + 1;
        }
        self.entries.push((key, stamped));
        proof {
            let es2 = self.entries@;
            assert(es2 == es.push(es2.last()));
            assert forall|l: int| 0 <= l < es.len() implies es2[l].0@ == (#[trigger] es[l].0@) by {
                assert(es2[l] == es[l]);
            }
            lemma_find_key_prefix(es2, key@, es.len() as int);
            assert forall|k: Seq<char>| k != key@ implies spec_get_es(es2, k) == spec_get_es(
                es,
                k,
            ) by {
                lemma_get_after_update(es, es2, key@, k);
            }
            assert forall|a: int, b: int| 0 <= a < b < es2.len() implies (#[trigger] es2[a].0@)
                != (#[trigger] es2[b].0@) by {
                if b < es.len() {
                    assert(es2[a] == es[a] && es2[b] == es[b]);
                } else {
                    assert(es2[a] == es[a] && es2[b].0@ == key@);
                }
            }
        }
    }

    /// Record that attachment `index` of the session under `key` has been
    /// uploaded, and touch the session's update time.
    pub fn push_processed(&mut self, key: &str, index: u16, now: i64)
        requires
            old(self).wf(),
            old(self).spec_contains(key@),
        ensures
            final(self).wf(),
            final(self).spec_get(key@) matches Some(e) && ({
                let olde = old(self).spec_get(key@)->0;
                &&& e.attachments_processed@ == olde.attachments_processed@.push(index)
                &&& e.email == olde.email
                &&& e.address == olde.address
                &&& e.insertion_time == olde.insertion_time
                &&& e.last_updated == now
            }),
            forall|k: Seq<char>| k != key@ ==> final(self).spec_get(k) == old(self).spec_get(k),
            final(self).num_processed == old(self).num_processed,
            final(self).avg_processing_time == old(self).avg_processing_time,
    {
        proof {
            lemma_find_key_ensures(self.entries@, key@);
        }
        let ghost es = self.entries@;
        let n = self.entries.len();
        let mut i: usize = 0;
        while i < n
            invariant
                n == self.entries@.len(),
                i <= n,
                self.entries@ == es,
                es == old(self).entries@,
                spec_unique_keys(es),
                self.num_processed == old(self).num_processed,
                self.avg_processing_time == old(self).avg_processing_time,
                spec_find_key(es, key@) matches Some(j) && i <= j,
                forall|j: int| 0 <= j < i ==> (#[trigger] self.entries@[j].0@) != key@,
            decreases n - i,
        {
            proof {
                lemma_find_key_ensures(es, key@);
            }
            if text::str_eq(self.entries[i].0.as_str(), key) {
                proof {
                    lemma_find_key_prefix(es, key@, i as int);
                }
                self.entries[i].1.attachments_processed.push(index);
                self.entries[i].1.last_updated = now;
                proof {
                    let es2 = self.entries@;
                    assert forall|l: int| 0 <= l < es.len() implies es2[l].0@ == (
                    #[trigger] es[l].0@) by {
                        if l != i {
                            assert(es2[l] == es[l]);
                        }
                    }
                    lemma_find_key_prefix(es2, key@, i as int);
                    assert forall|k: Seq<char>| k != key@ implies spec_get_es(es2, k)
                        == spec_get_es(es, k) by {
                        lemma_get_after_update(es, es2, key@, k);
                    }
                    assert forall|a: int, b: int| 0 <= a < b < es2.len() implies (
                    #[trigger] es2[a].0@) != (#[trigger] es2[b].0@) by {
                        assert(es2[a].0@ == es[a].0@ && es2[b].0@ == es[b].0@);
                    }
                }
                return ;
            }
            i = i + 1;
        }
        proof {
            lemma_find_key_ensures(es, key@);
        }
    }

    /// Evict the session under `key` after its terminal attachment, counting
    /// it as processed and folding its lifetime into the running average.
    pub fn remove(&mut self, key: &str, now: i64)
        requires
            old(self).wf(),
            old(self).spec_contains(key@),
            now >= old(self).spec_get(key@)->0.insertion_time,
            now - old(self).spec_get(key@)->0.insertion_time <= 0x4000000000000000,
            old(self).num_processed < u64::MAX,
            old(self).avg_processing_time <= 0x4000000000000000,
        ensures
            final(self).wf(),
            !final(self).spec_contains(key@),
            forall|k: Seq<char>| k != key@ ==> final(self).spec_get(k) == old(self).spec_get(k),
            final(self).num_processed == old(self).num_processed + 1,
            final(self).avg_processing_time == old(self).avg_processing_time + ((now - old(
                self,
            ).spec_get(key@)->0.insertion_time) as u64) / (old(self).num_processed + 1) as u64,
    {
        proof {
            lemma_find_key_ensures(self.entries@, key@);
        }
        let ghost es = self.entries@;
        let n = self.entries.len();
        let mut i: usize = 0;
        while i < n
            invariant
                n == self.entries@.len(),
                i <= n,
                self.entries@ == es,
                es == old(self).entries@,
                spec_unique_keys(es),
                self.num_processed == old(self).num_processed,
                self.num_processed < u64::MAX,
                self.avg_processing_time == old(self).avg_processing_time,
                self.avg_processing_time <= 0x4000000000000000,
                now >= old(self).spec_get(key@)->0.insertion_time,
                now - old(self).spec_get(key@)->0.insertion_time <= 0x4000000000000000,
                spec_find_key(es, key@) matches Some(j) && i <= j,
                forall|j: int| 0 <= j < i ==> (#[trigger] self.entries@[j].0@) != key@,
            decreases n - i,
        {
            proof {
                lemma_find_key_ensures(es, key@);
            }
            if text::str_eq(self.entries[i].0.as_str(), key) {
                proof {
                    lemma_find_key_prefix(es, key@, i as int);
                    assert(es[i as int].1 == old(self).spec_get(key@)->0);
                }
                let t = self.entries[i].1.insertion_time;
                self.num_processed = self.num_processed + 1;
                let processing: u64 = (now - t) as u64;
                self.avg_processing_time = self.avg_processing_time + processing
                    / self.num_processed;
                self.entries.remove(i);
                proof {
                    let es2 = self.entries@;
                    assert(es2 == es.remove(i as int));
                    assert forall|k: Seq<char>| k != key@ implies spec_get_es(es2, k)
                        == spec_get_es(es, k) by {
                        lemma_get_after_remove(es, i as int, k);
                    }
                    assert forall|l: int| 0 <= l < es2.len() implies (#[trigger] es2[l].0@)
                        != key@ by {
                        if l < i {
                            assert(es2[l] == es[l]);
                        } else {
                            assert(es2[l] == es[l + 1]);
                        }
                    }
                    lemma_find_key_ensures(es2, key@);
                    assert forall|a: int, b: int| 0 <= a < b < es2.len() implies (
                    #[trigger] es2[a].0@) != (#[trigger] es2[b].0@) by {
                        let a0 = if a < i {
                            a
                        } else {
                            a + 1
                        };
                        let b0 = if b < i {
                            b
                        } else {
                            b + 1
                        };
                        assert(es2[a] == es[a0] && es2[b] == es[b0]);
                    }
                }
                return ;
            }
            i = i + 1;
        }
        proof {
            lemma_find_key_ensures(es, key@);
        }
    }
}

} // verus!
