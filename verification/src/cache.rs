//! A shared cache with per-key hit/miss statistics, used to keep parsed
//! statements and generated COUNT queries.
//!
//! The entries live in a `moka` cache, which evicts by capacity and time on
//! its own, and the statistics in a `DashMap` shared between threads: what
//! either holds at a given moment depends on time and on other threads, so no
//! contract here states what a lookup returns. What the library decides
//! itself, how statistics change on a hit or a miss, is stated and proved.
use vstd::prelude::*;

use ahash::{AHasher, RandomState};
use dashmap::DashMap;
use moka::sync::Cache;
use std::hash::{Hash, Hasher};
use std::sync::Arc;
use std::time::{Duration, Instant};

verus! {

#[verifier::external_type_specification]
#[verifier::external_body]
pub struct ExInstant(std::time::Instant);

#[verifier::external_type_specification]
#[verifier::external_body]
#[verifier::reject_recursive_types(K)]
#[verifier::reject_recursive_types(V)]
#[verifier::reject_recursive_types(S)]
pub struct ExMokaCache<K, V, S>(moka::sync::Cache<K, V, S>);

#[verifier::external_type_specification]
#[verifier::external_body]
#[verifier::reject_recursive_types(K)]
#[verifier::reject_recursive_types(V)]
#[verifier::reject_recursive_types(S)]
pub struct ExDashMap<K, V, S>(dashmap::DashMap<K, V, S>);

#[verifier::external_type_specification]
#[verifier::external_body]
pub struct ExRandomState(ahash::RandomState);

/// Hit and miss counts of one key, with the time of its last access.
#[derive(Clone, Copy, Debug)]
pub struct CacheStats {
    pub hits: u64,
    pub misses: u64,
    pub last_access: Instant,
}

/// The statistics of a key after a hit at `now`: one more hit (counting
/// modulo 2^64), misses kept; a first hit when the key had none.
pub fn stats_after_hit(prev: Option<CacheStats>, now: Instant) -> (r: CacheStats)
    ensures
        r.last_access == now,
        match prev {
            Some(s) => r.hits == (s.hits + 1) % 0x1_0000_0000_0000_0000 && r.misses == s.misses,
            None => r.hits == 1 && r.misses == 0,
        },
{
    match prev {
        Some(s) => CacheStats { hits: s.hits.wrapping_add(1), misses: s.misses, last_access: now },
        None => CacheStats { hits: 1, misses: 0, last_access: now },
    }
}

/// The statistics of a key after a miss at `now`: one more miss (counting
/// modulo 2^64), hits kept; a first miss when the key had none.
pub fn stats_after_miss(prev: Option<CacheStats>, now: Instant) -> (r: CacheStats)
    ensures
        r.last_access == now,
        match prev {
            Some(s) => r.misses == (s.misses + 1) % 0x1_0000_0000_0000_0000 && r.hits == s.hits,
            None => r.hits == 0 && r.misses == 1,
        },
{
    match prev {
        Some(s) => CacheStats { hits: s.hits, misses: s.misses.wrapping_add(1), last_access: now },
        None => CacheStats { hits: 0, misses: 1, last_access: now },
    }
}

/// `Instant::now()`.
#[verifier::external_body]
fn instant_now() -> Instant {
    Instant::now()
}

/// The longest time-to-live moka accepts: 1000 years of 365 days, in
/// nanoseconds (`build` panics beyond it).
pub const MAX_TTL_NANOS: u128 = 31_536_000_000_000_000_000;

/// The length of a duration in nanoseconds (`Duration::as_nanos`).
pub uninterp spec fn duration_nanos_of(d: Duration) -> u128;

/// `Duration::as_nanos`: the whole length in nanoseconds.
#[verifier::external_body]
fn duration_nanos(d: &Duration) -> (r: u128)
    ensures
        r == duration_nanos_of(*d),
{
    d.as_nanos()
}

/// Whether moka accepts an optional time-to-live.
pub open spec fn ttl_accepted(ttl: Option<Duration>) -> bool {
    ttl matches Some(d) ==> duration_nanos_of(d) <= MAX_TTL_NANOS
}

/// A moka cache built with the given capacities, optional time-to-live and
/// weigher (`Cache::builder()...build()`); `build` panics on a time-to-live
/// over 1000 years, and the weigher is called on every entry.
#[verifier::external_body]
fn moka_new<K, V>(
    initial_capacity: usize,
    max_capacity: u64,
    ttl: Option<Duration>,
    weigher: impl Fn(&K, &V) -> u32 + Send + Sync + 'static,
) -> Cache<K, Arc<V>> where K: Eq + Hash + Send + Sync + 'static, V: Send + Sync + 'static
    requires
        ttl_accepted(ttl),
        forall|k: &K, v: &V| call_requires(weigher, (k, v)),
{
    let mut builder = Cache::builder().initial_capacity(initial_capacity).max_capacity(
        max_capacity,
    );
    if let Some(duration) = ttl {
        builder = builder.time_to_live(duration);
    }
    builder.weigher(move |k, v: &Arc<V>| weigher(k, v)).build()
}

/// `DashMap::with_capacity_and_hasher(capacity, RandomState::new())`.
#[verifier::external_body]
fn dashmap_new<K: Eq + Hash, V>(capacity: usize) -> DashMap<K, V, RandomState> {
    DashMap::with_capacity_and_hasher(capacity, RandomState::new())
}

/// `Cache::get`.
#[verifier::external_body]
fn moka_get<K, V>(c: &Cache<K, Arc<V>>, key: &K) -> Option<Arc<V>> where
    K: Eq + Hash + Send + Sync + 'static,
    V: Send + Sync + 'static,
 {
    c.get(key)
}

/// `Cache::insert`.
#[verifier::external_body]
fn moka_insert<K, V>(c: &Cache<K, Arc<V>>, key: K, value: Arc<V>) where
    K: Eq + Hash + Send + Sync + 'static,
    V: Send + Sync + 'static,
 {
    c.insert(key, value)
}

/// `Cache::get_with`, the value built from the key by `init`, reporting
/// whether `init` ran.
#[verifier::external_body]
fn moka_get_with<K, V, F: FnOnce(&K) -> V>(c: &Cache<K, Arc<V>>, key: K, init: F) -> (Arc<V>, bool) where
    K: Eq + Hash + Copy + Send + Sync + 'static,
    V: Send + Sync + 'static,

    requires
        call_requires(init, (&key,)),
{
    let mut ran = false;
    let value = c.get_with(key, || { ran = true; Arc::new(init(&key)) });
    (value, ran)
}

/// `Cache::invalidate`.
#[verifier::external_body]
fn moka_invalidate<K, V>(c: &Cache<K, Arc<V>>, key: &K) where
    K: Eq + Hash + Send + Sync + 'static,
    V: Send + Sync + 'static,
 {
    c.invalidate(key)
}

/// `Cache::invalidate_all`.
#[verifier::external_body]
fn moka_invalidate_all<K, V>(c: &Cache<K, Arc<V>>) where
    K: Eq + Hash + Send + Sync + 'static,
    V: Send + Sync + 'static,
 {
    c.invalidate_all()
}

/// Replaces the statistics of `key` by `f` applied to the present ones,
/// under the map's entry lock (`DashMap::entry`).
#[verifier::external_body]
fn stats_update<K: Eq + Hash, F: FnOnce(Option<CacheStats>) -> CacheStats>(
    m: &DashMap<K, CacheStats, RandomState>,
    key: K,
    f: F,
)
    requires
        forall|p: Option<CacheStats>| call_requires(f, (p,)),
{
    match m.entry(key) {
        dashmap::mapref::entry::Entry::Occupied(mut o) => { let n = f(Some(*o.get())); o.insert(n); },
        dashmap::mapref::entry::Entry::Vacant(v) => { v.insert(f(None)); },
    }
}

/// A copy of the statistics of `key` (`DashMap::get`).
#[verifier::external_body]
fn stats_get<K: Eq + Hash>(m: &DashMap<K, CacheStats, RandomState>, key: &K) -> Option<CacheStats> {
    m.get(key).map(|s| *s)
}

/// `DashMap::remove`, result dropped.
#[verifier::external_body]
fn stats_remove<K: Eq + Hash>(m: &DashMap<K, CacheStats, RandomState>, key: &K) {
    m.remove(key);
}

/// `DashMap::clear`.
#[verifier::external_body]
fn stats_clear<K: Eq + Hash>(m: &DashMap<K, CacheStats, RandomState>) {
    m.clear()
}

/// The 64-bit `AHasher` hash (default keys, which `ahash` draws once per
/// process) of the bytes of `value`.
#[verifier::external_body]
fn ahash_of(value: &str) -> u64 {
    let mut hasher = AHasher::default();
    hasher.write(value.as_bytes());
    hasher.finish()
}

/// A shared cache of values by key, with per-key statistics.
#[verifier::reject_recursive_types(K)]
#[verifier::reject_recursive_types(V)]
pub struct GlobalCache<K, V> {
    cache: Cache<K, Arc<V>>,
    pub stats: DashMap<K, CacheStats, RandomState>,
}

impl<K, V> GlobalCache<K, V> where K: Eq + Hash + Copy + Send + Sync + 'static, V: Send + Sync + 'static {
    /// A cache with the given capacities, optional time-to-live (at most 1000
    /// years) and weigher (callable on every entry).
    pub fn new(
        initial_capacity: usize,
        max_capacity: u64,
        ttl: Option<Duration>,
        weigher: impl Fn(&K, &V) -> u32 + Send + Sync + 'static,
    ) -> Self
        requires
            ttl_accepted(ttl),
            forall|k: &K, v: &V| call_requires(weigher, (k, v)),
    {
        GlobalCache {
            cache: moka_new(initial_capacity, max_capacity, ttl, weigher),
            stats: dashmap_new(initial_capacity),
        }
    }

    /// A cache as `new` builds it, or `None` when the time-to-live is over
    /// 1000 years.
    pub fn try_new(
        initial_capacity: usize,
        max_capacity: u64,
        ttl: Option<Duration>,
        weigher: impl Fn(&K, &V) -> u32 + Send + Sync + 'static,
    ) -> (r: Option<Self>)
        requires
            forall|k: &K, v: &V| call_requires(weigher, (k, v)),
        ensures
            r is Some <==> ttl_accepted(ttl),
    {
        let accepted = match &ttl {
            Some(d) => duration_nanos(d) <= MAX_TTL_NANOS,
            None => true,
        };
        if accepted {
            Some(Self::new(initial_capacity, max_capacity, ttl, weigher))
        } else {
            None
        }
    }

    /// The cached value of `key`, built by `builder` and cached on a miss.
    /// What comes back is not stated: it depends on what moka holds, which
    /// changes with time, capacity eviction and other threads.
    pub fn get_or_insert_with<F>(&self, key: K, builder: F) -> Arc<V> where F: FnOnce(&K) -> V
        requires
            call_requires(builder, (&key,)),
    {
        let now = instant_now();
        let (value, was_miss) = moka_get_with(&self.cache, key, builder);
        if was_miss {
            self.record_miss(key, now);
        } else {
            self.record_hit(key, now);
        }
        value
    }

    /// Caches `value` under `key` (counted as a hit) and returns it shared.
    pub fn insert(&self, key: K, value: V) -> (r: Arc<V>)
        ensures
            *r == value,
    {
        let arc_value = Arc::new(value);
        let now = instant_now();
        moka_insert(&self.cache, key, arc_value.clone());
        self.record_hit(key, now);
        arc_value
    }

    /// The cached value of `key`, if present; counts a hit or a miss. What
    /// comes back is not stated: it depends on moka's eviction and on other
    /// threads.
    pub fn get(&self, key: K) -> Option<Arc<V>> {
        let now = instant_now();
        match moka_get(&self.cache, &key) {
            Some(value) => {
                self.record_hit(key, now);
                Some(value)
            },
            None => {
                self.record_miss(key, now);
                None
            },
        }
    }

    fn record_hit(&self, key: K, now: Instant) {
        stats_update(&self.stats, key, move |prev: Option<CacheStats>| stats_after_hit(prev, now));
    }

    fn record_miss(&self, key: K, now: Instant) {
        stats_update(&self.stats, key, move |prev: Option<CacheStats>| stats_after_miss(prev, now));
    }

    /// The statistics of `key`, if it was ever looked up or inserted. Not
    /// stated: the table is shared and changed through `&self` by every
    /// thread; how one hit or miss changes it is stated by `stats_after_hit`
    /// and `stats_after_miss`.
    pub fn stats(&self, key: &K) -> Option<CacheStats> {
        stats_get(&self.stats, key)
    }

    /// Drops `key` and its statistics (the cache's contents are not modelled,
    /// so nothing is stated of them afterwards).
    pub fn invalidate(&self, key: &K) {
        moka_invalidate(&self.cache, key);
        stats_remove(&self.stats, key);
    }

    /// Drops every entry and all statistics (not modelled, as for
    /// `invalidate`).
    pub fn clear(&self) {
        moka_invalidate_all(&self.cache);
        stats_clear(&self.stats);
    }

    /// The key under which SQL text `value` is cached: ahash with keys drawn
    /// once per process, so no name is given to it and nothing is stated.
    pub fn fingerprint(&self, value: &str) -> u64 {
        ahash_of(value)
    }
}

} // verus!
