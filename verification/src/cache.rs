//! Response cache of LLM chat calls: configuration presets, hit/miss
//! statistics, time-to-live expiry and least-recently-used eviction.
//!
//! The entries live in an `lru::LruCache`; its contents are named by
//! `lru_entries` (least recently used first) and its capacity by
//! `lru_capacity`, and each method the cache uses has a trusted wrapper whose
//! contract states, over these names, what `LruCache` does.
//! Time is a monotonic clock in nanoseconds, read by the caller.

use vstd::prelude::*;
use crate::llm::{Message, MessageRole, role_name_of, role_name};
use core::hash::Hasher;
use vstd::std_specs::hash::DefaultHasherAdditionalSpecFns;
use vstd::utf8::encode_utf8;
use vstd::arithmetic::div_mod::{lemma_add_mod_noop, lemma_mod_twice, lemma_small_mod, lemma_mod_self_0};
use lru::LruCache;
use std::collections::hash_map::{DefaultHasher, RandomState};

verus! {

// ---------------------------------------------------------------------------
// Outside types
// ---------------------------------------------------------------------------

#[verifier::external_type_specification]
#[verifier::external_body]
#[verifier::reject_recursive_types(K)]
#[verifier::reject_recursive_types(V)]
#[verifier::reject_recursive_types(S)]
pub struct ExLruCache<K, V, S>(lru::LruCache<K, V, S>);

// ---------------------------------------------------------------------------
// Configuration
// ---------------------------------------------------------------------------

/// Cache configuration.
#[derive(Debug, Clone)]
pub struct LlmCacheConfig {
    /// Whether responses are cached at all.
    pub enabled: bool,
    /// Maximum number of entries.
    pub capacity: usize,
    /// Time to live of an entry, in seconds.
    pub default_ttl_secs: u64,
    /// Whether the time to live counts from the last access (else from creation).
    pub sliding_expiration: bool,
    /// Minimum total length, in bytes, of the message texts of a cacheable request.
    pub min_message_length: usize,
    /// Maximum length, in bytes, of a cacheable response.
    pub max_response_length: usize,
}

impl Default for LlmCacheConfig {
    fn default() -> (r: LlmCacheConfig)
        ensures
            r.enabled,
            r.capacity == 500,
            r.default_ttl_secs == 3600,
            !r.sliding_expiration,
            r.min_message_length == 5,
            r.max_response_length == 50000,
    {
        LlmCacheConfig {
            enabled: true,
            capacity: 500,
            default_ttl_secs: 3600,
            sliding_expiration: false,
            min_message_length: 5,
            max_response_length: 50000,
        }
    }
}

impl LlmCacheConfig {
    /// The default configuration with caching switched off.
    pub fn disabled() -> (r: LlmCacheConfig)
        ensures
            !r.enabled,
            r.capacity == 500,
            r.default_ttl_secs == 3600,
            !r.sliding_expiration,
            r.min_message_length == 5,
            r.max_response_length == 50000,
    {
        LlmCacheConfig { enabled: false, ..LlmCacheConfig::default() }
    }

    /// A configuration tuned for many hits: larger, longer-lived, sliding expiry.
    pub fn high_hit_rate() -> (r: LlmCacheConfig)
        ensures
            r.enabled,
            r.capacity == 1000,
            r.default_ttl_secs == 86400,
            r.sliding_expiration,
            r.min_message_length == 3,
            r.max_response_length == 100000,
    {
        LlmCacheConfig {
            enabled: true,
            capacity: 1000,
            default_ttl_secs: 86400,
            sliding_expiration: true,
            min_message_length: 3,
            max_response_length: 100000,
        }
    }

    /// A configuration tuned for little memory: smaller and shorter-lived.
    pub fn low_memory() -> (r: LlmCacheConfig)
        ensures
            r.enabled,
            r.capacity == 100,
            r.default_ttl_secs == 900,
            !r.sliding_expiration,
            r.min_message_length == 10,
            r.max_response_length == 10000,
    {
        LlmCacheConfig {
            enabled: true,
            capacity: 100,
            default_ttl_secs: 900,
            sliding_expiration: false,
            min_message_length: 10,
            max_response_length: 10000,
        }
    }
}

// ---------------------------------------------------------------------------
// Statistics
// ---------------------------------------------------------------------------

/// Cache statistics; each counter wraps around at `u64::MAX`.
#[derive(Debug, Clone)]
pub struct LlmCacheStats {
    total_requests: u64,
    hits: u64,
    misses: u64,
    expired: u64,
    writes: u64,
}

/// Abstract statistics: requests, hits, misses, expirations, writes.
pub struct StatsView {
    pub total_requests: u64,
    pub hits: u64,
    pub misses: u64,
    pub expired: u64,
    pub writes: u64,
}

/// The successor of a counter, wrapping to 0 after `u64::MAX`.
pub open spec fn next_count(x: u64) -> u64 {
    if x == u64::MAX {
        0
    } else {
        (x + 1) as u64
    }
}

/// What the statistics count.
pub enum StatsEvent {
    /// A request answered from the cache.
    Hit,
    /// A request not answered from the cache.
    Miss,
    /// An entry dropped because it expired.
    Expired,
    /// A response written to the cache.
    Write,
}

/// The counters before any event.
pub open spec fn zero_stats() -> StatsView {
    StatsView { total_requests: 0, hits: 0, misses: 0, expired: 0, writes: 0 }
}

/// The counters after one more event.
pub open spec fn apply_event(s: StatsView, e: StatsEvent) -> StatsView {
    match e {
        StatsEvent::Hit => StatsView {
            total_requests: next_count(s.total_requests),
            hits: next_count(s.hits),
            ..s
        },
        StatsEvent::Miss => StatsView {
            total_requests: next_count(s.total_requests),
            misses: next_count(s.misses),
            ..s
        },
        StatsEvent::Expired => StatsView { expired: next_count(s.expired), ..s },
        StatsEvent::Write => StatsView { writes: next_count(s.writes), ..s },
    }
}

/// The counters after a sequence of events, from zero.
pub open spec fn stats_after(es: Seq<StatsEvent>) -> StatsView
    decreases es.len(),
{
    if es.len() == 0 {
        zero_stats()
    } else {
        apply_event(stats_after(es.drop_last()), es.last())
    }
}

impl LlmCacheStats {
    /// The counters.
    pub closed spec fn view_stats(self) -> StatsView {
        StatsView {
            total_requests: self.total_requests,
            hits: self.hits,
            misses: self.misses,
            expired: self.expired,
            writes: self.writes,
        }
    }

    /// All counters at zero.
    pub fn new() -> (r: LlmCacheStats)
        ensures
            r.view_stats() == zero_stats(),
    {
        LlmCacheStats { total_requests: 0, hits: 0, misses: 0, expired: 0, writes: 0 }
    }

    /// Counts a request answered from the cache.
    pub fn record_hit(&mut self)
        ensures
            final(self).view_stats() == apply_event(old(self).view_stats(), StatsEvent::Hit),
    {
        self.total_requests = self.total_requests.wrapping_add(1);
        self.hits = self.hits.wrapping_add(1);
    }

    /// Counts a request not answered from the cache.
    pub fn record_miss(&mut self)
        ensures
            final(self).view_stats() == apply_event(old(self).view_stats(), StatsEvent::Miss),
    {
        self.total_requests = self.total_requests.wrapping_add(1);
        self.misses = self.misses.wrapping_add(1);
    }

    /// Counts an entry dropped because it expired.
    pub fn record_expired(&mut self)
        ensures
            final(self).view_stats() == apply_event(old(self).view_stats(), StatsEvent::Expired),
    {
        self.expired = self.expired.wrapping_add(1);
    }

    /// Counts a response written to the cache.
    pub fn record_write(&mut self)
        ensures
            final(self).view_stats() == apply_event(old(self).view_stats(), StatsEvent::Write),
    {
        self.writes = self.writes.wrapping_add(1);
    }

    /// Number of requests seen (hits and misses).
    pub fn total_requests(&self) -> (r: u64)
        ensures
            r == self.view_stats().total_requests,
    {
        self.total_requests
    }

    /// Number of hits.
    pub fn hits(&self) -> (r: u64)
        ensures
            r == self.view_stats().hits,
    {
        self.hits
    }

    /// Number of misses.
    pub fn misses(&self) -> (r: u64)
        ensures
            r == self.view_stats().misses,
    {
        self.misses
    }

    /// Number of expired entries dropped.
    pub fn expired(&self) -> (r: u64)
        ensures
            r == self.view_stats().expired,
    {
        self.expired
    }

    /// Number of responses written.
    pub fn writes(&self) -> (r: u64)
        ensures
            r == self.view_stats().writes,
    {
        self.writes
    }
}

impl Default for LlmCacheStats {
    fn default() -> (r: LlmCacheStats)
        ensures
            r.view_stats() == zero_stats(),
    {
        LlmCacheStats::new()
    }
}

// ---------------------------------------------------------------------------
// Entries
// ---------------------------------------------------------------------------

/// A cached response and its timing.
#[derive(Debug, Clone)]
pub struct CacheEntry {
    /// The cached response text.
    pub response: String,
    /// Clock reading at creation (nanoseconds).
    pub created_at: u64,
    /// Clock reading at the last access (nanoseconds).
    pub last_accessed: u64,
    /// Time to live in seconds.
    pub ttl_secs: u64,
    /// Whether the time to live counts from the last access.
    pub sliding_expiration: bool,
}

/// Nanoseconds from `from` to `now`, zero when `now` is earlier.
pub open spec fn elapsed(from: u64, now: u64) -> int {
    if now >= from {
        now - from
    } else {
        0
    }
}

/// An entry has expired at `now` when more than its time to live has passed
/// since its last access (sliding expiry) or since its creation.
pub open spec fn expired_at(e: CacheEntry, now: u64) -> bool {
    let start = if e.sliding_expiration {
        e.last_accessed
    } else {
        e.created_at
    };
    elapsed(start, now) > e.ttl_secs * 1_000_000_000
}

impl CacheEntry {
    /// A fresh entry created and accessed at `now`.
    pub fn new(response: String, ttl_secs: u64, sliding_expiration: bool, now: u64) -> (r:
        CacheEntry)
        ensures
            r.response == response,
            r.created_at == now,
            r.last_accessed == now,
            r.ttl_secs == ttl_secs,
            r.sliding_expiration == sliding_expiration,
    {
        CacheEntry { response, created_at: now, last_accessed: now, ttl_secs, sliding_expiration }
    }

    /// Whether the entry has expired at `now` (see `expired_at`).
    pub fn is_expired(&self, now: u64) -> (r: bool)
        ensures
            r == expired_at(*self, now),
    {
        let start = if self.sliding_expiration {
            self.last_accessed
        } else {
            self.created_at
        };
        let waited: u64 = if now >= start {
            now - start
        } else {
            0
        };
        (waited as u128) > (self.ttl_secs as u128) * 1_000_000_000u128
    }

    /// Marks an access at `now`.
    pub fn touch(&mut self, now: u64)
        ensures
            *final(self) == (CacheEntry { last_accessed: now, ..*old(self) }),
    {
        self.last_accessed = now;
    }
}

// ---------------------------------------------------------------------------
// The LRU store, behind trusted wrappers
// ---------------------------------------------------------------------------

/// The entries of an LRU cache, least recently used first.
pub uninterp spec fn lru_entries(c: LruCache<u64, CacheEntry, RandomState>) -> Seq<(u64, CacheEntry)>;

/// The capacity an LRU cache was made with.
pub uninterp spec fn lru_capacity(c: LruCache<u64, CacheEntry, RandomState>) -> nat;

/// Some entry has key `k`.
pub open spec fn has_key(es: Seq<(u64, CacheEntry)>, k: u64) -> bool {
    exists|i: int| 0 <= i < es.len() && es[i].0 == k
}

/// The position of the entry with key `k` (meaningful when there is one).
pub open spec fn key_pos(es: Seq<(u64, CacheEntry)>, k: u64) -> int {
    choose|i: int| 0 <= i < es.len() && es[i].0 == k
}

/// No two entries share a key.
pub open spec fn keys_unique(es: Seq<(u64, CacheEntry)>) -> bool {
    forall|i: int, j: int| 0 <= i < j < es.len() ==> es[i].0 != es[j].0
}

/// `LruCache::new`: an empty cache of capacity `cap` (which must not be zero).
#[verifier::external_body]
fn lru_new(cap: usize) -> (c: LruCache<u64, CacheEntry, RandomState>)
    requires
        cap > 0,
    ensures
        lru_entries(c) == Seq::<(u64, CacheEntry)>::empty(),
        lru_capacity(c) == cap,
{
    LruCache::with_hasher(std::num::NonZeroUsize::new(cap).unwrap(), RandomState::new())
}

/// `LruCache::get` (the value cloned): when `k` is present its value is returned
/// and the entry becomes the most recently used; otherwise nothing changes.
#[verifier::external_body]
fn lru_get(c: &mut LruCache<u64, CacheEntry, RandomState>, k: u64) -> (r: Option<CacheEntry>)
    ensures
        lru_capacity(*final(c)) == lru_capacity(*old(c)),
        !has_key(lru_entries(*old(c)), k) ==> r is None && lru_entries(*final(c)) == lru_entries(
            *old(c),
        ),
        has_key(lru_entries(*old(c)), k) ==> ({
            let es = lru_entries(*old(c));
            let i = key_pos(es, k);
            &&& r == Some(es[i].1)
            &&& lru_entries(*final(c)) == es.remove(i).push(es[i])
        }),
{
    c.get(&k).cloned()
}

/// `LruCache::put`: a present key gets the new value and becomes the most recently
/// used, and its old value is returned; an absent key is added as the most recently
/// used, after evicting the least recently used entry when the cache is full.
#[verifier::external_body]
fn lru_put(c: &mut LruCache<u64, CacheEntry, RandomState>, k: u64, v: CacheEntry) -> (r: Option<CacheEntry>)
    ensures
        lru_capacity(*final(c)) == lru_capacity(*old(c)),
        has_key(lru_entries(*old(c)), k) ==> ({
            let es = lru_entries(*old(c));
            let i = key_pos(es, k);
            &&& r == Some(es[i].1)
            &&& lru_entries(*final(c)) == es.remove(i).push((k, v))
        }),
        !has_key(lru_entries(*old(c)), k) && lru_entries(*old(c)).len() < lru_capacity(*old(c))
            ==> r is None && lru_entries(*final(c)) == lru_entries(*old(c)).push((k, v)),
        !has_key(lru_entries(*old(c)), k) && lru_entries(*old(c)).len() == lru_capacity(*old(c))
            ==> r is None && lru_entries(*final(c)) == lru_entries(*old(c)).drop_first().push(
            (k, v),
        ),
{
    c.put(k, v)
}

/// `LruCache::pop`: removes the entry with key `k`, if any, and returns its value.
#[verifier::external_body]
fn lru_pop(c: &mut LruCache<u64, CacheEntry, RandomState>, k: u64) -> (r: Option<CacheEntry>)
    ensures
        lru_capacity(*final(c)) == lru_capacity(*old(c)),
        !has_key(lru_entries(*old(c)), k) ==> r is None && lru_entries(*final(c)) == lru_entries(
            *old(c),
        ),
        has_key(lru_entries(*old(c)), k) ==> ({
            let es = lru_entries(*old(c));
            let i = key_pos(es, k);
            &&& r == Some(es[i].1)
            &&& lru_entries(*final(c)) == es.remove(i)
        }),
{
    c.pop(&k)
}

/// `LruCache::len`: the number of entries.
#[verifier::external_body]
fn lru_len(c: &LruCache<u64, CacheEntry, RandomState>) -> (r: usize)
    ensures
        r == lru_entries(*c).len(),
{
    c.len()
}

/// `LruCache::clear`: removes every entry.
#[verifier::external_body]
fn lru_clear(c: &mut LruCache<u64, CacheEntry, RandomState>)
    ensures
        lru_capacity(*final(c)) == lru_capacity(*old(c)),
        lru_entries(*final(c)) == Seq::<(u64, CacheEntry)>::empty(),
{
    c.clear()
}

// ---------------------------------------------------------------------------
// Request keys
// ---------------------------------------------------------------------------

/// The writes that hashing a text makes: its UTF-8 bytes, then the byte 0xff
/// (how std hashes a `str`).
pub open spec fn str_writes(s: Seq<char>) -> Seq<Seq<u8>> {
    seq![encode_utf8(s), seq![0xffu8]]
}

/// The writes of the messages: for each, its role name and then its text if any.
pub open spec fn message_writes(ms: Seq<Message>) -> Seq<Seq<u8>>
    decreases ms.len(),
{
    if ms.len() == 0 {
        seq![]
    } else {
        message_writes(ms.drop_last()) + str_writes(role_name(ms.last().role)) + match ms.last().content {
            Some(c) => str_writes(c@),
            None => Seq::<Seq<u8>>::empty(),
        }
    }
}

fn hash_str(h: &mut DefaultHasher, s: &str)
    ensures
        final(h)@ == old(h)@ + str_writes(s@),
{
    h.write(s.as_bytes());
    let end: [u8; 1] = [0xffu8];
    h.write(end.as_slice());
    assert(end@ =~= seq![0xffu8]);
    assert(final(h)@ =~= old(h)@ + str_writes(s@));
}

/// The cache key of a request: a hash of the model name and, for each message,
/// its role name and its text (tool calls and call ids are left out).
pub fn cache_key(model: &str, messages: &[Message]) -> (r: u64)
    ensures
        r == DefaultHasher::spec_finish(str_writes(model@) + message_writes(messages@)),
{
    let mut h = DefaultHasher::new();
    hash_str(&mut h, model);
    let mut i: usize = 0;
    while i < messages.len()
        invariant
            i <= messages.len(),
            h@ == str_writes(model@) + message_writes(messages@.take(i as int)),
        decreases messages.len() - i,
    {
        proof {
            assert(messages@.take(i + 1).drop_last() =~= messages@.take(i as int));
            assert(messages@.take(i + 1).last() == messages@[i as int]);
        }
        let m = &messages[i];
        hash_str(&mut h, role_name_of(m.role));
        match &m.content {
            Some(c) => hash_str(&mut h, c.as_str()),
            None => {},
        }
        proof {
            assert(h@ =~= str_writes(model@) + message_writes(messages@.take(i + 1)));
        }
        i = i + 1;
    }
    assert(messages@.take(messages.len() as int) =~= messages@);
    h.finish()
}

// ---------------------------------------------------------------------------
// Cache decisions
// ---------------------------------------------------------------------------

/// Byte length of the UTF-8 encoding of a text, as `str::len` reports it.
pub open spec fn utf8_len(s: Seq<char>) -> nat {
    (encode_utf8(s).len() as usize) as nat
}

/// Total byte length of the texts of the messages.
pub open spec fn content_bytes(ms: Seq<Message>) -> nat
    decreases ms.len(),
{
    if ms.len() == 0 {
        0
    } else {
        content_bytes(ms.drop_last()) + match ms.last().content {
            Some(c) => utf8_len(c@),
            None => 0,
        }
    }
}

/// A request is cacheable when caching is on, there is at least one message,
/// the last message neither answers nor asks for a tool call, and the texts
/// together are at least `min_message_length` bytes long.
pub open spec fn cacheable_request(cfg: LlmCacheConfig, ms: Seq<Message>) -> bool {
    &&& cfg.enabled
    &&& ms.len() > 0
    &&& ms.last().tool_call_id is None
    &&& ms.last().tool_calls is None
    &&& content_bytes(ms) >= cfg.min_message_length
}

/// A response is cacheable when it is not empty and at most
/// `max_response_length` bytes long.
pub open spec fn cacheable_response(cfg: LlmCacheConfig, r: Seq<char>) -> bool {
    r.len() > 0 && utf8_len(r) <= cfg.max_response_length
}

/// Whether a request may be answered from, and stored in, the cache.
pub fn should_cache(config: &LlmCacheConfig, messages: &[Message]) -> (r: bool)
    ensures
        r == cacheable_request(*config, messages@),
{
    if !config.enabled {
        return false;
    }
    if messages.len() == 0 {
        return false;
    }
    let last = &messages[messages.len() - 1];
    if last.tool_call_id.is_some() {
        return false;
    }
    if last.tool_calls.is_some() {
        return false;
    }
    let mut total: usize = 0;
    let mut i: usize = 0;
    while i < messages.len()
        invariant
            i <= messages.len(),
            total as nat == if content_bytes(messages@.take(i as int)) > usize::MAX {
                usize::MAX as nat
            } else {
                content_bytes(messages@.take(i as int))
            },
        decreases messages.len() - i,
    {
        proof {
            assert(messages@.take(i + 1).drop_last() =~= messages@.take(i as int));
            assert(messages@.take(i + 1).last() == messages@[i as int]);
        }
        match &messages[i].content {
            Some(c) => {
                total = total.saturating_add(c.as_str().len());
            },
            None => {},
        }
        i = i + 1;
    }
    assert(messages@.take(messages.len() as int) =~= messages@);
    total >= config.min_message_length
}

/// Whether a response may be stored.
pub fn should_cache_response(config: &LlmCacheConfig, response: &str) -> (r: bool)
    ensures
        r == cacheable_response(*config, response@),
{
    !response.is_empty() && response.len() <= config.max_response_length
}

// ---------------------------------------------------------------------------
// The response cache
// ---------------------------------------------------------------------------

/// The entries after writing `(k, v)` into an LRU store of capacity `cap`
/// (see `lru_put`).
pub open spec fn put_entries(es: Seq<(u64, CacheEntry)>, k: u64, v: CacheEntry, cap: nat) -> Seq<
    (u64, CacheEntry),
> {
    if has_key(es, k) {
        es.remove(key_pos(es, k)).push((k, v))
    } else if es.len() < cap {
        es.push((k, v))
    } else {
        es.drop_first().push((k, v))
    }
}

/// What a lookup of `k` at `now` answers: the response of the entry with key
/// `k`, when there is one and it has not expired.
pub open spec fn lookup_answer(es: Seq<(u64, CacheEntry)>, k: u64, now: u64) -> Option<Seq<char>> {
    if has_key(es, k) && !expired_at(es[key_pos(es, k)].1, now) {
        Some(es[key_pos(es, k)].1.response@)
    } else {
        None
    }
}

/// The entries after a lookup of `k` at `now`: an expired entry is dropped, a
/// live one is marked accessed at `now` and becomes the most recently used.
pub open spec fn lookup_entries(es: Seq<(u64, CacheEntry)>, k: u64, now: u64) -> Seq<
    (u64, CacheEntry),
> {
    if has_key(es, k) {
        let i = key_pos(es, k);
        let e = es[i].1;
        if expired_at(e, now) {
            es.remove(i)
        } else {
            es.remove(i).push((k, CacheEntry { last_accessed: now, ..e }))
        }
    } else {
        es
    }
}

/// Statistics consistency: hits and misses add up to the requests (modulo 2^64).
pub open spec fn stats_consistent(s: StatsView) -> bool {
    (s.hits as int + s.misses as int) % 0x1_0000_0000_0000_0000 == s.total_requests as int
}


/// The cache key of a request: the hash of the model name and the messages
/// (see `cache_key`).
pub open spec fn request_key(model: Seq<char>, ms: Seq<Message>) -> u64 {
    DefaultHasher::spec_finish(str_writes(model) + message_writes(ms))
}

/// What a caching chat client does with a request.
#[derive(Debug, Clone, PartialEq, Eq)]
pub enum ChatStep {
    /// Answer with this cached response.
    Cached(String),
    /// Ask the wrapped client; its answer is then offered to the cache under
    /// the key, when there is one.
    Forward(Option<u64>),
}

impl ResponseCache {
    /// The first half of a cached chat at time `now`. A request that may not
    /// be cached goes to the wrapped client untouched. Otherwise its key is
    /// looked up (see `lookup`): a live entry answers it, and on a miss the
    /// request goes to the wrapped client with the key under which to store
    /// the answer.
    pub fn begin_chat(&mut self, model: &str, messages: &[Message], now: u64) -> (r: ChatStep)
        requires
            old(self).wf(),
        ensures
            final(self).wf(),
            final(self).capacity() == old(self).capacity(),
            final(self).config_view() == old(self).config_view(),
            !cacheable_request(old(self).config_view(), messages@) ==> {
                &&& r == ChatStep::Forward(None)
                &&& final(self).entries() == old(self).entries()
                &&& final(self).stats_view() == old(self).stats_view()
            },
            cacheable_request(old(self).config_view(), messages@) ==> {
                let k = request_key(model@, messages@);
                &&& final(self).entries() == lookup_entries(old(self).entries(), k, now)
                &&& match r {
                    ChatStep::Cached(s) => Some(s@) == lookup_answer(old(self).entries(), k, now),
                    ChatStep::Forward(key) => key == Some(k) && lookup_answer(
                        old(self).entries(),
                        k,
                        now,
                    ) is None,
                }
                &&& r is Cached ==> final(self).stats_view() == (StatsView {
                    total_requests: next_count(old(self).stats_view().total_requests),
                    hits: next_count(old(self).stats_view().hits),
                    ..old(self).stats_view()
                })
                &&& r is Forward && has_key(old(self).entries(), k) ==> final(self).stats_view() == (
                StatsView {
                    total_requests: next_count(old(self).stats_view().total_requests),
                    misses: next_count(old(self).stats_view().misses),
                    expired: next_count(old(self).stats_view().expired),
                    ..old(self).stats_view()
                })
                &&& r is Forward && !has_key(old(self).entries(), k) ==> final(self).stats_view() == (
                StatsView {
                    total_requests: next_count(old(self).stats_view().total_requests),
                    misses: next_count(old(self).stats_view().misses),
                    ..old(self).stats_view()
                })
            },
    {
        if !self.should_cache(messages) {
            return ChatStep::Forward(None);
        }
        let key = cache_key(model, messages);
        match self.lookup(key, now) {
            Some(s) => ChatStep::Cached(s),
            None => ChatStep::Forward(Some(key)),
        }
    }

    /// The second half of a cached chat: the wrapped client's answer is
    /// stored under the key handed out by `begin_chat`, when there is one and
    /// the answer may be cached. Returns whether it was stored; a stored
    /// answer is what a lookup of the key gives at the same time.
    pub fn finish_chat(&mut self, key: Option<u64>, response: &str, now: u64) -> (stored: bool)
        requires
            old(self).wf(),
        ensures
            final(self).wf(),
            final(self).capacity() == old(self).capacity(),
            final(self).config_view() == old(self).config_view(),
            stored == (key is Some && cacheable_response(old(self).config_view(), response@)),
            stored ==> lookup_answer(final(self).entries(), key->0, now) == Some(response@),
            stored ==> ({
                let e = CacheEntry {
                    response: final(self).entries().last().1.response,
                    created_at: now,
                    last_accessed: now,
                    ttl_secs: old(self).config_view().default_ttl_secs,
                    sliding_expiration: old(self).config_view().sliding_expiration,
                };
                &&& e.response@ == response@
                &&& final(self).entries() == put_entries(old(self).entries(), key->0, e, old(self).capacity())
                &&& final(self).stats_view() == (StatsView {
                    writes: next_count(old(self).stats_view().writes),
                    ..old(self).stats_view()
                })
            }),
            !stored ==> final(self).entries() == old(self).entries() && final(self).stats_view()
                == old(self).stats_view(),
    {
        match key {
            None => false,
            Some(k) => {
                let ghost es = self.entries();
                let stored = self.store(k, response, now);
                proof {
                    if stored {
                        let e = CacheEntry {
                            response: self.entries().last().1.response,
                            created_at: now,
                            last_accessed: now,
                            ttl_secs: self.config_view().default_ttl_secs,
                            sliding_expiration: self.config_view().sliding_expiration,
                        };
                        law_fresh_entry_lifetime(e, now, now);
                        law_store_then_lookup(es, self.capacity(), k, e, now);
                    }
                }
                stored
            },
        }
    }
}

/// Requests are hits plus misses: from fresh statistics, after any sequence
/// of recorded events the request count is the hit count plus the miss count
/// (modulo 2^64, and exactly while fewer than 2^64 events were recorded);
/// expirations and writes are not requests.
pub proof fn law_requests_are_hits_plus_misses(es: Seq<StatsEvent>)
    ensures
        stats_consistent(stats_after(es)),
        es.len() < 0x1_0000_0000_0000_0000 ==> stats_after(es).total_requests as int
            == stats_after(es).hits as int + stats_after(es).misses as int,
    decreases es.len(),
{
    if es.len() > 0 {
        law_requests_are_hits_plus_misses(es.drop_last());
        let s = stats_after(es.drop_last());
        let m: int = 0x1_0000_0000_0000_0000;
        lemma_next_count_mod(s.total_requests);
        lemma_next_count_mod(s.hits);
        lemma_next_count_mod(s.misses);
        lemma_add_mod_noop(s.hits as int + s.misses as int, 1, m);
        lemma_add_mod_noop(s.hits as int + 1, s.misses as int, m);
        lemma_add_mod_noop(s.hits as int, s.misses as int + 1, m);
        lemma_mod_twice(s.hits as int + s.misses as int + 1, m);
        lemma_small_mod(1, m as nat);
        lemma_small_mod(s.misses as nat, m as nat);
        lemma_small_mod(s.hits as nat, m as nat);
        if es.len() < m {
            lemma_requests_within_events(es.drop_last());
        }
    }
}

/// The request count never exceeds the number of events, and neither does
/// the hit or the miss count.
proof fn lemma_requests_within_events(es: Seq<StatsEvent>)
    requires
        es.len() < 0x1_0000_0000_0000_0000,
    ensures
        stats_after(es).total_requests <= es.len(),
        stats_after(es).hits <= stats_after(es).total_requests,
        stats_after(es).misses <= stats_after(es).total_requests,
    decreases es.len(),
{
    if es.len() > 0 {
        lemma_requests_within_events(es.drop_last());
        law_requests_are_hits_plus_misses(es.drop_last());
    }
}

/// A counter's successor is the next number modulo 2^64.
proof fn lemma_next_count_mod(x: u64)
    ensures
        next_count(x) as int == (x as int + 1) % 0x1_0000_0000_0000_0000,
{
    if x == u64::MAX {
        lemma_mod_self_0(0x1_0000_0000_0000_0000);
    } else {
        lemma_small_mod((x + 1) as nat, 0x1_0000_0000_0000_0000);
    }
}

proof fn lemma_key_pos(es: Seq<(u64, CacheEntry)>, k: u64, i: int)
    requires
        keys_unique(es),
        0 <= i < es.len(),
        es[i].0 == k,
    ensures
        has_key(es, k),
        key_pos(es, k) == i,
{
    assert(has_key(es, k));
    let j = key_pos(es, k);
    if j != i {
        if j < i {
            assert(es[j].0 != es[i].0);
        } else {
            assert(es[i].0 != es[j].0);
        }
    }
}

proof fn lemma_unique_remove(es: Seq<(u64, CacheEntry)>, i: int)
    requires
        keys_unique(es),
        0 <= i < es.len(),
    ensures
        keys_unique(es.remove(i)),
        forall|k: u64| has_key(es.remove(i), k) ==> has_key(es, k) && k != es[i].0,
{
    let r = es.remove(i);
    assert forall|a: int, b: int| 0 <= a < b < r.len() implies r[a].0 != r[b].0 by {
        let a2 = if a < i {
            a
        } else {
            a + 1
        };
        let b2 = if b < i {
            b
        } else {
            b + 1
        };
        assert(r[a] == es[a2] && r[b] == es[b2]);
    }
    assert forall|k: u64| has_key(r, k) implies has_key(es, k) && k != es[i].0 by {
        let a = choose|a: int| 0 <= a < r.len() && r[a].0 == k;
        let a2 = if a < i {
            a
        } else {
            a + 1
        };
        assert(r[a] == es[a2]);
        if k == es[i].0 {
            if a2 < i {
                assert(es[a2].0 != es[i].0);
            } else {
                assert(es[i].0 != es[a2].0);
            }
        }
    }
}

proof fn lemma_unique_push(es: Seq<(u64, CacheEntry)>, k: u64, v: CacheEntry)
    requires
        keys_unique(es),
        !has_key(es, k),
    ensures
        keys_unique(es.push((k, v))),
        key_pos(es.push((k, v)), k) == es.len(),
        has_key(es.push((k, v)), k),
{
    let r = es.push((k, v));
    assert forall|a: int, b: int| 0 <= a < b < r.len() implies r[a].0 != r[b].0 by {
        if b == es.len() {
            assert(r[a] == es[a]);
        } else {
            assert(r[a] == es[a] && r[b] == es[b]);
        }
    }
    lemma_key_pos(r, k, es.len() as int);
}

proof fn lemma_unique_drop_first(es: Seq<(u64, CacheEntry)>)
    requires
        keys_unique(es),
        es.len() > 0,
    ensures
        keys_unique(es.drop_first()),
        forall|k: u64| has_key(es.drop_first(), k) ==> has_key(es, k),
{
    assert(es.drop_first() =~= es.remove(0));
    lemma_unique_remove(es, 0);
}

/// Writing `(k, v)` keeps keys unique and the store within its capacity.
proof fn lemma_put_wf(es: Seq<(u64, CacheEntry)>, k: u64, v: CacheEntry, cap: nat)
    requires
        keys_unique(es),
        es.len() <= cap,
        cap > 0,
    ensures
        keys_unique(put_entries(es, k, v, cap)),
        put_entries(es, k, v, cap).len() <= cap,
        has_key(put_entries(es, k, v, cap), k),
        key_pos(put_entries(es, k, v, cap), k) == put_entries(es, k, v, cap).len() - 1,
        put_entries(es, k, v, cap).last() == (k, v),
{
    if has_key(es, k) {
        let i = key_pos(es, k);
        lemma_unique_remove(es, i);
        lemma_unique_push(es.remove(i), k, v);
    } else if es.len() < cap {
        lemma_unique_push(es, k, v);
    } else {
        lemma_unique_drop_first(es);
        lemma_unique_push(es.drop_first(), k, v);
    }
}

/// LLM response cache: an LRU store of entries keyed by `cache_key`, a
/// configuration and statistics.
pub struct ResponseCache {
    store: LruCache<u64, CacheEntry, RandomState>,
    config: LlmCacheConfig,
    stats: LlmCacheStats,
}

impl ResponseCache {
    /// Keys are unique, the store is within its (non-zero) capacity, and the
    /// statistics are consistent.
    pub closed spec fn wf(self) -> bool {
        &&& keys_unique(lru_entries(self.store))
        &&& lru_entries(self.store).len() <= lru_capacity(self.store)
        &&& lru_capacity(self.store) > 0
        &&& stats_consistent(self.stats.view_stats())
    }

    /// The entries, least recently used first.
    pub closed spec fn entries(&self) -> Seq<(u64, CacheEntry)> {
        lru_entries(self.store)
    }

    /// The maximum number of entries.
    pub closed spec fn capacity(&self) -> nat {
        lru_capacity(self.store)
    }

    /// The configuration.
    pub closed spec fn config_view(&self) -> LlmCacheConfig {
        self.config
    }

    /// The statistics.
    pub closed spec fn stats_view(&self) -> StatsView {
        self.stats.view_stats()
    }

    /// An empty cache; a zero capacity in the configuration means 100 entries.
    pub fn new(config: LlmCacheConfig) -> (r: ResponseCache)
        ensures
            r.wf(),
            r.entries() == Seq::<(u64, CacheEntry)>::empty(),
            r.capacity() == (if config.capacity == 0 {
                100
            } else {
                config.capacity
            }),
            r.config_view() == config,
            r.stats_view() == (StatsView {
                total_requests: 0,
                hits: 0,
                misses: 0,
                expired: 0,
                writes: 0,
            }),
    {
        let cap = if config.capacity == 0 {
            100
        } else {
            config.capacity
        };
        let store = lru_new(cap);
        ResponseCache { store, config, stats: LlmCacheStats::new() }
    }

    /// The configuration.
    pub fn config(&self) -> (r: &LlmCacheConfig)
        ensures
            *r == self.config_view(),
    {
        &self.config
    }

    /// The statistics.
    pub fn cache_stats(&self) -> (r: &LlmCacheStats)
        requires
            self.wf(),
        ensures
            r.view_stats() == self.stats_view(),
            stats_consistent(self.stats_view()),
    {
        &self.stats
    }

    /// The number of entries.
    pub fn cache_size(&self) -> (r: usize)
        requires
            self.wf(),
        ensures
            r == self.entries().len(),
            r <= self.capacity(),
    {
        lru_len(&self.store)
    }

    /// Removes every entry.
    pub fn clear_cache(&mut self)
        requires
            old(self).wf(),
        ensures
            final(self).wf(),
            final(self).entries() == Seq::<(u64, CacheEntry)>::empty(),
            final(self).capacity() == old(self).capacity(),
            final(self).config_view() == old(self).config_view(),
            final(self).stats_view() == old(self).stats_view(),
    {
        lru_clear(&mut self.store);
    }

    /// Whether a request may be answered from, and stored in, the cache.
    pub fn should_cache(&self, messages: &[Message]) -> (r: bool)
        ensures
            r == cacheable_request(self.config_view(), messages@),
    {
        should_cache(&self.config, messages)
    }

    /// Looks up the response cached under `key` at time `now`. A live entry is a
    /// hit: it is marked accessed and returned. An expired entry is dropped and
    /// counted as expired; then, as for an absent key, a miss is counted.
    pub fn lookup(&mut self, key: u64, now: u64) -> (r: Option<String>)
        requires
            old(self).wf(),
        ensures
            final(self).wf(),
            r matches Some(s) ==> Some(s@) == lookup_answer(old(self).entries(), key, now),
            r is None ==> lookup_answer(old(self).entries(), key, now) is None,
            final(self).entries() == lookup_entries(old(self).entries(), key, now),
            final(self).capacity() == old(self).capacity(),
            final(self).config_view() == old(self).config_view(),
            r is Some ==> final(self).stats_view() == (StatsView {
                total_requests: next_count(old(self).stats_view().total_requests),
                hits: next_count(old(self).stats_view().hits),
                ..old(self).stats_view()
            }),
            r is None && has_key(old(self).entries(), key) ==> final(self).stats_view() == (
            StatsView {
                total_requests: next_count(old(self).stats_view().total_requests),
                misses: next_count(old(self).stats_view().misses),
                expired: next_count(old(self).stats_view().expired),
                ..old(self).stats_view()
            }),
            r is None && !has_key(old(self).entries(), key) ==> final(self).stats_view() == (
            StatsView {
                total_requests: next_count(old(self).stats_view().total_requests),
                misses: next_count(old(self).stats_view().misses),
                ..old(self).stats_view()
            }),
    {
        let ghost es = self.entries();
        let got = lru_get(&mut self.store, key);
        match got {
            Some(e) => {
                let ghost i = key_pos(es, key);
                proof {
                    lemma_unique_remove(es, i);
                    lemma_unique_push(es.remove(i), key, es[i].1);
                    assert(es[i].0 == key);
                }
                if e.is_expired(now) {
                    let _ = lru_pop(&mut self.store, key);
                    proof {
                        let p = es.remove(i).push(es[i]);
                        assert(p.remove(p.len() - 1) =~= es.remove(i));
                    }
                    self.stats.record_expired();
                    self.stats.record_miss();
                    None
                } else {
                    let mut fresh = e;
                    fresh.touch(now);
                    let answer = fresh.response.clone();
                    let _ = lru_put(&mut self.store, key, fresh);
                    proof {
                        let p = es.remove(i).push(es[i]);
                        assert(p.remove(p.len() - 1) =~= es.remove(i));
                        lemma_unique_push(es.remove(i), key, fresh);
                    }
                    self.stats.record_hit();
                    Some(answer)
                }
            },
            None => {
                self.stats.record_miss();
                None
            },
        }
    }

    /// Stores `response` under `key` at time `now` when it is cacheable, counting
    /// the write; returns whether it was stored.
    pub fn store(&mut self, key: u64, response: &str, now: u64) -> (stored: bool)
        requires
            old(self).wf(),
        ensures
            final(self).wf(),
            stored == cacheable_response(old(self).config_view(), response@),
            stored ==> ({
                let e = CacheEntry {
                    response: final(self).entries().last().1.response,
                    created_at: now,
                    last_accessed: now,
                    ttl_secs: old(self).config_view().default_ttl_secs,
                    sliding_expiration: old(self).config_view().sliding_expiration,
                };
                &&& e.response@ == response@
                &&& final(self).entries() == put_entries(
                    old(self).entries(),
                    key,
                    e,
                    old(self).capacity(),
                )
                &&& final(self).stats_view() == (StatsView {
                    writes: next_count(old(self).stats_view().writes),
                    ..old(self).stats_view()
                })
            }),
            !stored ==> final(self).entries() == old(self).entries() && final(self).stats_view()
                == old(self).stats_view(),
            final(self).capacity() == old(self).capacity(),
            final(self).config_view() == old(self).config_view(),
    {
        if !should_cache_response(&self.config, response) {
            return false;
        }
        let ghost es = self.entries();
        let entry = CacheEntry::new(
            crate::text::string_of(crate::text::chars_of(response).as_slice()),
            self.config.default_ttl_secs,
            self.config.sliding_expiration,
            now,
        );
        let ghost ev = entry;
        let _ = lru_put(&mut self.store, key, entry);
        proof {
            lemma_put_wf(es, key, ev, self.capacity());
        }
        self.stats.record_write();
        true
    }
}

/// A response just stored is what a lookup of the same key answers, for as long
/// as its time to live has not passed: writing `(k, v)` into a well-formed store
/// and looking `k` up while `v` is live gives back `v`'s response.
pub proof fn law_store_then_lookup(
    es: Seq<(u64, CacheEntry)>,
    cap: nat,
    k: u64,
    v: CacheEntry,
    now: u64,
)
    requires
        keys_unique(es),
        es.len() <= cap,
        cap > 0,
        !expired_at(v, now),
    ensures
        lookup_answer(put_entries(es, k, v, cap), k, now) == Some(v.response@),
{
    lemma_put_wf(es, k, v, cap);
}

/// An entry made at time `t` stays live exactly while no more than its time to
/// live has passed since `t`, whether expiry is sliding or fixed.
pub proof fn law_fresh_entry_lifetime(e: CacheEntry, t: u64, now: u64)
    requires
        e.created_at == t,
        e.last_accessed == t,
    ensures
        !expired_at(e, now) <==> elapsed(t, now) <= e.ttl_secs * 1_000_000_000,
{
}

/// A write never removes another key, except by evicting the least recently
/// used entry of a full store; and it leaves the store within its capacity.
pub proof fn law_store_keeps_others(
    es: Seq<(u64, CacheEntry)>,
    cap: nat,
    k: u64,
    v: CacheEntry,
    k2: u64,
)
    requires
        keys_unique(es),
        es.len() <= cap,
        cap > 0,
        k2 != k,
        has_key(es, k2),
        has_key(es, k) || es.len() < cap || es[0].0 != k2,
    ensures
        has_key(put_entries(es, k, v, cap), k2),
        put_entries(es, k, v, cap).len() <= cap,
{
    lemma_put_wf(es, k, v, cap);
    let j = key_pos(es, k2);
    let r = put_entries(es, k, v, cap);
    if has_key(es, k) {
        let i = key_pos(es, k);
        let q = es.remove(i);
        let j2 = if j < i {
            j
        } else {
            j - 1
        };
        if j == i {
            assert(es[j].0 == k2);
        }
        assert(q[j2] == es[j]);
        assert(r[j2] == q[j2]);
    } else if es.len() < cap {
        assert(r[j] == es[j]);
    } else {
        assert(j != 0);
        assert(r[j - 1] == es.drop_first()[j - 1]);
    }
}

} // verus!
