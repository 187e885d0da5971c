//! Response cache with a time-to-live and a capacity, keyed by
//! `edition:host`.
//!
//! It stores the complete [`StatusResponse`], so a hit returns the delay that
//! was measured when the entry was stored. Times are nanoseconds on the wall
//! clock, handed in by the caller.

use vstd::prelude::*;

use vstd::string::StringExecFns;

use crate::config::CacheConfig;
use crate::status::StatusResponse;

verus! {

/// What the cache holds under one key.
pub struct CacheRecord {
    pub response: StatusResponse,
    /// Wall-clock time of the store, in nanoseconds.
    pub stored_at: u128,
}

/// One stored response.
struct CachedEntry {
    key: String,
    response: StatusResponse,
    stored_at: u128,
}

/// `after` is `before` once `record` has been stored under `key`: a
/// disabled cache (`ttl == 0`) is left as it was.
pub open spec fn stored(before: Cache, after: Cache, key: Seq<char>, record: CacheRecord) -> bool {
    &&& after.ttl() == before.ttl()
    &&& after.max_size() == before.max_size()
    &&& before.ttl() == 0 ==> after.records() == before.records()
    &&& before.ttl() != 0 ==> store_outcome(
        before.records(),
        before.max_size() as nat,
        key,
        record,
        after.records(),
    )
}

/// Response cache with a time-to-live and a capacity.
pub struct Cache {
    entries: Vec<CachedEntry>,
    ttl: u128,
    max_size: usize,
}

/// No two entries share a key.
spec fn keys_distinct(s: Seq<CachedEntry>) -> bool {
    forall|i: int, j: int|
        0 <= i < s.len() && 0 <= j < s.len() && i != j ==> #[trigger] s[i].key@
            != #[trigger] s[j].key@
}

/// Some entry has key `k`.
spec fn has_key(s: Seq<CachedEntry>, k: Seq<char>) -> bool {
    exists|i: int| 0 <= i < s.len() && #[trigger] s[i].key@ == k
}

/// The record that an entry stands for.
spec fn record_of(e: CachedEntry) -> CacheRecord {
    CacheRecord { response: e.response, stored_at: e.stored_at }
}

/// The records that a sequence of entries stands for, by key.
spec fn records_of(s: Seq<CachedEntry>) -> Map<Seq<char>, CacheRecord> {
    Map::new(
        |k: Seq<char>| has_key(s, k),
        |k: Seq<char>| record_of(s[choose|i: int| 0 <= i < s.len() && #[trigger] s[i].key@ == k]),
    )
}

/// An entry is fresh while `now - stored_at < ttl`; a store time later than
/// `now` (the clock went back) counts as expired.
pub open spec fn is_fresh(stored_at: u128, now: u128, ttl: u128) -> bool {
    stored_at <= now && now - stored_at < ttl
}

/// `victim` is stored no later than any other key of `m`.
pub open spec fn is_oldest(m: Map<Seq<char>, CacheRecord>, victim: Seq<char>) -> bool {
    &&& m.contains_key(victim)
    &&& forall|k: Seq<char>| #[trigger] m.contains_key(k) ==> m[victim].stored_at <= m[k].stored_at
}

/// The records after storing `record` under `key` into `before`, which holds
/// at most `max_size` records: when it is full, one oldest record (`victim`)
/// leaves first.
pub open spec fn store_outcome(
    before: Map<Seq<char>, CacheRecord>,
    max_size: nat,
    key: Seq<char>,
    record: CacheRecord,
    after: Map<Seq<char>, CacheRecord>,
) -> bool {
    if before.len() < max_size {
        after == before.insert(key, record)
    } else {
        exists|victim: Seq<char>|
            is_oldest(before, victim) && after == #[trigger] before.remove(victim).insert(
                key,
                record,
            )
    }
}

proof fn lemma_record_at(s: Seq<CachedEntry>, i: int)
    requires
        keys_distinct(s),
        0 <= i < s.len(),
    ensures
        records_of(s).contains_key(s[i].key@),
        records_of(s)[s[i].key@] == record_of(s[i]),
{
    let k = s[i].key@;
    assert(has_key(s, k));
    let j = choose|j: int| 0 <= j < s.len() && #[trigger] s[j].key@ == k;
    assert(j == i);
}

proof fn lemma_key_index(s: Seq<CachedEntry>, k: Seq<char>) -> (i: int)
    requires
        keys_distinct(s),
        records_of(s).contains_key(k),
    ensures
        0 <= i < s.len(),
        s[i].key@ == k,
        records_of(s)[k] == record_of(s[i]),
{
    let i = choose|i: int| 0 <= i < s.len() && #[trigger] s[i].key@ == k;
    lemma_record_at(s, i);
    i
}

proof fn lemma_records_len(s: Seq<CachedEntry>)
    requires
        keys_distinct(s),
    ensures
        records_of(s).dom().finite(),
        records_of(s).len() == s.len(),
{
    let ks = s.map_values(|e: CachedEntry| e.key@);
    assert(ks.no_duplicates()) by {
        assert forall|i: int, j: int|
            0 <= i < ks.len() && 0 <= j < ks.len() && i != j implies ks[i] != ks[j] by {
            assert(ks[i] == s[i].key@);
            assert(ks[j] == s[j].key@);
        }
    }
    assert(records_of(s).dom() =~= ks.to_set()) by {
        assert forall|k: Seq<char>| records_of(s).dom().contains(k) implies ks.to_set().contains(
            k,
        ) by {
            let i = choose|i: int| 0 <= i < s.len() && #[trigger] s[i].key@ == k;
            assert(ks[i] == k);
        }
        assert forall|k: Seq<char>| ks.to_set().contains(k) implies records_of(s).dom().contains(
            k,
        ) by {
            let i = choose|i: int| 0 <= i < ks.len() && ks[i] == k;
            assert(s[i].key@ == k);
        }
    }
    ks.unique_seq_to_set();
}

proof fn lemma_push(s: Seq<CachedEntry>, e: CachedEntry)
    requires
        keys_distinct(s),
        !has_key(s, e.key@),
    ensures
        keys_distinct(s.push(e)),
        records_of(s.push(e)) == records_of(s).insert(e.key@, record_of(e)),
{
    let t = s.push(e);
    assert forall|i: int, j: int|
        0 <= i < t.len() && 0 <= j < t.len() && i != j implies #[trigger] t[i].key@
        != #[trigger] t[j].key@ by {
        if i < s.len() && j < s.len() {
            assert(t[i] == s[i] && t[j] == s[j]);
        } else if i < s.len() {
            assert(t[i] == s[i]);
        } else {
            assert(t[j] == s[j]);
        }
    }
    let m = records_of(s).insert(e.key@, record_of(e));
    assert forall|k: Seq<char>| #[trigger] records_of(t).contains_key(k) <==> m.contains_key(k) by {
        if records_of(t).contains_key(k) {
            let i = lemma_key_index(t, k);
            if i < s.len() {
                assert(s[i] == t[i]);
                assert(has_key(s, k));
            }
        }
        if records_of(s).contains_key(k) {
            let i = lemma_key_index(s, k);
            assert(t[i] == s[i]);
            assert(has_key(t, k));
        }
        if k == e.key@ {
            assert(t[s.len() as int] == e);
            assert(has_key(t, k));
        }
    }
    assert forall|k: Seq<char>| #[trigger] records_of(t).contains_key(k) implies records_of(t)[k]
        == m[k] by {
        let i = lemma_key_index(t, k);
        if i < s.len() {
            assert(t[i] == s[i]);
            lemma_record_at(s, i);
        }
    }
    assert(records_of(t) =~= m);
}

proof fn lemma_update(s: Seq<CachedEntry>, i: int, e: CachedEntry)
    requires
        keys_distinct(s),
        0 <= i < s.len(),
        e.key@ == s[i].key@,
    ensures
        keys_distinct(s.update(i, e)),
        records_of(s.update(i, e)) == records_of(s).insert(e.key@, record_of(e)),
{
    let t = s.update(i, e);
    assert forall|a: int, b: int|
        0 <= a < t.len() && 0 <= b < t.len() && a != b implies #[trigger] t[a].key@
        != #[trigger] t[b].key@ by {
        assert(t[a].key@ == s[a].key@);
        assert(t[b].key@ == s[b].key@);
    }
    let m = records_of(s).insert(e.key@, record_of(e));
    assert forall|k: Seq<char>| #[trigger] records_of(t).contains_key(k) <==> m.contains_key(k) by {
        if records_of(t).contains_key(k) {
            let j = lemma_key_index(t, k);
            assert(s[j].key@ == k);
            assert(has_key(s, k));
        }
        if records_of(s).contains_key(k) {
            let j = lemma_key_index(s, k);
            assert(t[j].key@ == k);
            assert(has_key(t, k));
        }
        if k == e.key@ {
            assert(t[i] == e);
            assert(has_key(t, k));
        }
    }
    assert forall|k: Seq<char>| #[trigger] records_of(t).contains_key(k) implies records_of(t)[k]
        == m[k] by {
        let j = lemma_key_index(t, k);
        if j != i {
            assert(t[j] == s[j]);
            lemma_record_at(s, j);
        }
    }
    assert(records_of(t) =~= m);
}

proof fn lemma_remove(s: Seq<CachedEntry>, i: int)
    requires
        keys_distinct(s),
        0 <= i < s.len(),
    ensures
        keys_distinct(s.remove(i)),
        records_of(s.remove(i)) == records_of(s).remove(s[i].key@),
{
    let t = s.remove(i);
    assert forall|a: int, b: int|
        0 <= a < t.len() && 0 <= b < t.len() && a != b implies #[trigger] t[a].key@
        != #[trigger] t[b].key@ by {
        let a2 = if a < i { a } else { a + 1 };
        let b2 = if b < i { b } else { b + 1 };
        assert(t[a] == s[a2]);
        assert(t[b] == s[b2]);
    }
    let gone = s[i].key@;
    let m = records_of(s).remove(gone);
    assert forall|k: Seq<char>| #[trigger] records_of(t).contains_key(k) <==> m.contains_key(k) by {
        if records_of(t).contains_key(k) {
            let j = lemma_key_index(t, k);
            let j2 = if j < i { j } else { j + 1 };
            assert(t[j] == s[j2]);
            assert(has_key(s, k));
            assert(j2 != i);
        }
        if m.contains_key(k) {
            let j = lemma_key_index(s, k);
            assert(j != i);
            let j2 = if j < i { j } else { j - 1 };
            assert(t[j2] == s[j]);
            assert(has_key(t, k));
        }
    }
    assert forall|k: Seq<char>| #[trigger] records_of(t).contains_key(k) implies records_of(t)[k]
        == m[k] by {
        let j = lemma_key_index(t, k);
        let j2 = if j < i { j } else { j + 1 };
        assert(t[j] == s[j2]);
        lemma_record_at(s, j2);
    }
    assert(records_of(t) =~= m);
}

fn position(entries: &Vec<CachedEntry>, key: &String) -> (r: Option<usize>)
    ensures
        match r {
            Some(i) => i < entries@.len() && entries@[i as int].key@ == key@,
            None => !has_key(entries@, key@),
        },
{
    let mut i: usize = 0;
    while i < entries.len()
        invariant
            i <= entries@.len(),
            forall|j: int| 0 <= j < i ==> #[trigger] entries@[j].key@ != key@,
        decreases entries@.len() - i,
    {
        if entries[i].key == *key {
            return Some(i);
        }
        i = i + 1;
    }
    None
}

fn oldest_position(entries: &Vec<CachedEntry>) -> (m: usize)
    requires
        entries@.len() > 0,
    ensures
        m < entries@.len(),
        forall|j: int|
            0 <= j < entries@.len() ==> entries@[m as int].stored_at
                <= #[trigger] entries@[j].stored_at,
{
    let mut m: usize = 0;
    let mut i: usize = 1;
    while i < entries.len()
        invariant
            1 <= i <= entries@.len(),
            m < i,
            forall|j: int| 0 <= j < i ==> entries@[m as int].stored_at <= #[trigger] entries@[j].stored_at,
        decreases entries@.len() - i,
    {
        if entries[i].stored_at < entries[m].stored_at {
            m = i;
        }
        i = i + 1;
    }
    m
}

impl Cache {
    #[verifier::type_invariant]
    spec fn well_formed(self) -> bool {
        &&& keys_distinct(self.entries@)
        &&& self.entries@.len() <= self.max_size
        &&& self.max_size >= 1
    }

    /// The stored records, by key.
    pub closed spec fn records(&self) -> Map<Seq<char>, CacheRecord> {
        records_of(self.entries@)
    }

    /// Time-to-live in nanoseconds; `0` disables the cache.
    pub closed spec fn ttl(&self) -> u128 {
        self.ttl
    }

    /// Largest number of records held at once.
    pub closed spec fn max_size(&self) -> usize {
        self.max_size
    }

    /// What a read of `key` at time `now` gives back.
    pub open spec fn lookup(&self, key: Seq<char>, now: u128) -> Option<StatusResponse> {
        if self.ttl() == 0 {
            None
        } else if self.records().contains_key(key) && is_fresh(
            self.records()[key].stored_at,
            now,
            self.ttl(),
        ) {
            Some(self.records()[key].response)
        } else {
            None
        }
    }

    /// An empty cache; a capacity of `0` is raised to `1`.
    pub fn new(ttl: u128, max_size: usize) -> (c: Cache)
        ensures
            c.records() == Map::<Seq<char>, CacheRecord>::empty(),
            c.ttl() == ttl,
            c.max_size() == if max_size == 0 { 1 } else { max_size },
    {
        let max_size = if max_size < 1 { 1 } else { max_size };
        let c = Cache { entries: Vec::new(), ttl, max_size };
        assert(c.records() =~= Map::<Seq<char>, CacheRecord>::empty());
        c
    }

    /// The cache that `config` describes; its time-to-live, given in
    /// seconds, becomes nanoseconds.
    pub fn from_config(config: &CacheConfig) -> (c: Cache)
        ensures
            c.records() == Map::<Seq<char>, CacheRecord>::empty(),
            c.ttl() == config.ttl_secs as u128 * 1_000_000_000,
            c.max_size() == if config.max_size == 0 { 1 } else { config.max_size },
    {
        let ttl: u128 = (config.ttl_secs as u128) * 1_000_000_000;
        Cache::new(ttl, config.max_size)
    }

    /// Number of stored records (expired ones included until evicted).
    pub fn len(&self) -> (n: usize)
        ensures
            n == self.records().len(),
            self.records().dom().finite(),
            n <= self.max_size(),
    {
        proof {
            use_type_invariant(self);
            lemma_records_len(self.entries@);
        }
        self.entries.len()
    }

    /// The response stored under `key`, unless the cache is disabled, the
    /// key is absent, or the entry is no longer fresh at `now`.
    pub fn get(&self, key: &str, now: u128) -> (r: Option<StatusResponse>)
        ensures
            r == self.lookup(key@, now),
    {
        proof {
            use_type_invariant(self);
        }
        if self.ttl == 0 {
            return None;
        }
        let k = String::from_str(key);
        match position(&self.entries, &k) {
            None => {
                assert(!self.records().contains_key(key@));
                None
            },
            Some(i) => {
                proof {
                    lemma_record_at(self.entries@, i as int);
                }
                let e = &self.entries[i];
                if e.stored_at <= now && now - e.stored_at < self.ttl {
                    Some(e.response.duplicate())
                } else {
                    None
                }
            },
        }
    }

    /// Stores `response` under `key` at time `now`. When the cache already
    /// holds `max_size` records, the oldest one is evicted first. Does
    /// nothing when the cache is disabled.
    pub fn insert(&mut self, key: String, response: StatusResponse, now: u128)
        ensures
            stored(*old(self), *final(self), key@, CacheRecord { response, stored_at: now }),
            final(self).records().dom().finite(),
            final(self).records().len() <= final(self).max_size(),
    {
        proof {
            use_type_invariant(&*self);
            lemma_records_len(self.entries@);
        }
        if self.ttl == 0 {
            return;
        }
        let ghost before = self.records();
        let mut entries: Vec<CachedEntry> = Vec::new();
        std::mem::swap(&mut entries, &mut self.entries);
        assert(entries@ == old(self).entries@);
        let ghost rec = CacheRecord { response, stored_at: now };
        let ghost mut victim: Seq<char> = key@;
        if entries.len() >= self.max_size {
            let m = oldest_position(&entries);
            proof {
                victim = entries@[m as int].key@;
                lemma_record_at(entries@, m as int);
                assert forall|k: Seq<char>| #[trigger] before.contains_key(k) implies before[victim].stored_at
                    <= before[k].stored_at by {
                    let j = lemma_key_index(entries@, k);
                }
                lemma_remove(entries@, m as int);
            }
            entries.remove(m);
        }
        let ghost mid = entries@;
        proof {
            lemma_records_len(mid);
        }
        let e = CachedEntry { key, response, stored_at: now };
        match position(&entries, &e.key) {
            Some(i) => {
                proof {
                    lemma_update(entries@, i as int, e);
                }
                entries.set(i, e);
            },
            None => {
                proof {
                    lemma_push(entries@, e);
                }
                entries.push(e);
            },
        }
        proof {
            lemma_records_len(entries@);
            if before.len() >= self.max_size {
                assert(is_oldest(before, victim));
                assert(records_of(entries@) == before.remove(victim).insert(key@, rec));
            }
        }
        self.entries = entries;
    }
}

/// A read of a key gives back the response that was just stored under it,
/// with everything it held (its measured delay included), as long as the
/// entry is still fresh.
pub proof fn law_read_back_what_was_stored(
    before: Cache,
    after: Cache,
    key: Seq<char>,
    response: StatusResponse,
    stored_at: u128,
    now: u128,
)
    requires
        stored(before, after, key, CacheRecord { response, stored_at }),
        before.ttl() != 0,
        stored_at <= now,
        now < stored_at + before.ttl(),
    ensures
        after.lookup(key, now) == Some(response),
{
    let rec = CacheRecord { response, stored_at };
    if before.records().len() >= before.max_size() as nat {
        let victim = choose|victim: Seq<char>|
            is_oldest(before.records(), victim) && after.records() == #[trigger] before.records().remove(
                victim,
            ).insert(key, rec);
        assert(after.records().contains_key(key));
    }
}

/// A disabled cache (`ttl == 0`) never answers a read, and storing into it
/// changes nothing.
pub proof fn law_disabled_cache_is_inert(
    before: Cache,
    after: Cache,
    key: Seq<char>,
    record: CacheRecord,
    other: Seq<char>,
    now: u128,
)
    requires
        before.ttl() == 0,
        stored(before, after, key, record),
    ensures
        before.lookup(other, now) is None,
        after.lookup(other, now) is None,
        after.records() == before.records(),
{
}

/// An entry is not served once its time-to-live has elapsed, nor when its
/// store time lies after the reading time.
pub proof fn law_expired_entry_misses(c: Cache, key: Seq<char>, now: u128)
    requires
        c.records().contains_key(key),
        now < c.records()[key].stored_at || now - c.records()[key].stored_at >= c.ttl(),
    ensures
        c.lookup(key, now) is None,
{
}

/// A stored entry is served, with the response stored under its key, at
/// every time from its store time up to (not including) store time plus the
/// time-to-live of an enabled cache.
pub proof fn law_fresh_entry_hits(c: Cache, key: Seq<char>, now: u128)
    requires
        c.ttl() != 0,
        c.records().contains_key(key),
        c.records()[key].stored_at <= now,
        now < c.records()[key].stored_at + c.ttl(),
    ensures
        c.lookup(key, now) == Some(c.records()[key].response),
{
}

/// Storing a new key into a full cache evicts the record stored strictly
/// before all others and keeps every other record.
pub proof fn law_full_store_evicts_the_oldest(
    before: Cache,
    after: Cache,
    key: Seq<char>,
    record: CacheRecord,
    oldest: Seq<char>,
)
    requires
        before.ttl() != 0,
        before.records().len() >= before.max_size() as nat,
        stored(before, after, key, record),
        before.records().contains_key(oldest),
        key != oldest,
        forall|k: Seq<char>|
            #[trigger] before.records().contains_key(k) && k != oldest ==> before.records()[oldest].stored_at
                < before.records()[k].stored_at,
    ensures
        !after.records().contains_key(oldest),
        forall|k: Seq<char>|
            #[trigger] before.records().contains_key(k) && k != oldest ==> after.records().contains_key(k)
                && (k != key ==> after.records()[k] == before.records()[k]),
{
    let victim = choose|victim: Seq<char>|
        is_oldest(before.records(), victim) && after.records() == #[trigger] before.records().remove(
            victim,
        ).insert(key, record);
    if victim != oldest {
        assert(before.records().contains_key(victim));
        assert(before.records()[victim].stored_at <= before.records()[oldest].stored_at);
    }
}

/// Storing into a cache that is not full adds the record and keeps all
/// others.
pub proof fn law_store_below_capacity_keeps_others(
    before: Cache,
    after: Cache,
    key: Seq<char>,
    record: CacheRecord,
)
    requires
        before.ttl() != 0,
        before.records().len() < before.max_size() as nat,
        stored(before, after, key, record),
    ensures
        after.records() == before.records().insert(key, record),
{
}

proof fn lemma_store_keeps_capacity(before: Cache, after: Cache, key: Seq<char>, record: CacheRecord)
    requires
        before.records().dom().finite(),
        before.records().len() <= before.max_size(),
        stored(before, after, key, record),
    ensures
        after.records().dom().finite(),
        after.records().len() <= after.max_size(),
{
    if before.ttl() != 0 {
        if before.records().len() < before.max_size() as nat {
            assert(after.records().dom() =~= before.records().dom().insert(key));
        } else {
            let victim = choose|victim: Seq<char>|
                is_oldest(before.records(), victim) && after.records() == #[trigger] before.records().remove(
                    victim,
                ).insert(key, record);
            let mid = before.records().remove(victim);
            assert(mid.dom() =~= before.records().dom().remove(victim));
            assert(after.records().dom() =~= mid.dom().insert(key));
        }
    }
}

proof fn lemma_run_capacity(
    run: Seq<Cache>,
    keys: Seq<Seq<char>>,
    records: Seq<CacheRecord>,
    capacity: usize,
    k: int,
)
    requires
        0 <= k < run.len(),
        run[0].records() == Map::<Seq<char>, CacheRecord>::empty(),
        run[0].max_size() == capacity,
        keys.len() + 1 >= run.len(),
        records.len() + 1 >= run.len(),
        forall|i: int|
            0 <= i < run.len() - 1 ==> stored(run[i], #[trigger] run[i + 1], keys[i], records[i])
                || run[i + 1] == run[i],
    ensures
        run[k].records().dom().finite(),
        run[k].records().len() <= capacity,
        run[k].max_size() == capacity,
    decreases k,
{
    if k == 0 {
        assert(run[0].records().dom() =~= Set::<Seq<char>>::empty());
    } else {
        lemma_run_capacity(run, keys, records, capacity, k - 1);
        let j = k - 1;
        assert(stored(run[j], run[j + 1], keys[j], records[j]) || run[j + 1] == run[j]);
        if run[k] != run[j] {
            lemma_store_keeps_capacity(run[j], run[k], keys[j], records[j]);
        }
    }
}

/// Starting from a new cache, through any sequence of stores (and of reads,
/// which leave the cache as it is), the cache never holds more records than
/// its capacity: `max_size`, or `1` when it was made with `0`.
pub proof fn law_capacity_holds_over_any_run(
    run: Seq<Cache>,
    keys: Seq<Seq<char>>,
    records: Seq<CacheRecord>,
    ttl: u128,
    max_size: usize,
)
    requires
        run.len() > 0,
        run[0].records() == Map::<Seq<char>, CacheRecord>::empty(),
        run[0].ttl() == ttl,
        run[0].max_size() == (if max_size == 0 { 1usize } else { max_size }),
        keys.len() + 1 >= run.len(),
        records.len() + 1 >= run.len(),
        forall|i: int|
            0 <= i < run.len() - 1 ==> stored(run[i], #[trigger] run[i + 1], keys[i], records[i])
                || run[i + 1] == run[i],
    ensures
        forall|i: int|
            #![trigger run[i]]
            0 <= i < run.len() ==> run[i].records().dom().finite() && run[i].records().len() <= (
            if max_size == 0 {
                1usize
            } else {
                max_size
            }),
{
    let capacity: usize = if max_size == 0 { 1usize } else { max_size };
    assert forall|i: int|
        #![trigger run[i]]
        0 <= i < run.len() implies run[i].records().dom().finite() && run[i].records().len()
            <= capacity by {
        lemma_run_capacity(run, keys, records, capacity, i);
    }
}

} // verus!
