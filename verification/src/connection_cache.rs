use crate::timing::{spec_interval_elapsed, spec_limiter_after, AtomicInterval, Measure};
use indexmap::IndexMap;
use rand::rngs::ThreadRng;
use rand::Rng;
use vstd::prelude::*;
use vstd::wrapping::u64_specs::wrapping_add;

verus! {

/// Upper bound on the number of remote addresses that the cache holds pools for.
pub const MAX_CONNECTIONS: usize = 1024;

/// Default number of connections kept per remote address.
pub const DEFAULT_TPU_CONNECTION_POOL_SIZE: usize = 4;

/// Whether the TPU and its connection cache use QUIC by default.
pub const DEFAULT_TPU_USE_QUIC: bool = true;

/// Whether UDP is enabled by default.
pub const DEFAULT_TPU_ENABLE_UDP: bool = false;

/// Minimum time, in ms, between two reports of the cache statistics.
pub const CONNECTION_STAT_SUBMISSION_INTERVAL: u64 = 2000;

/// Key under which a pool is cached: address family (4 or 6), the IP address
/// as an integer, and the port.
pub type CacheKey = (u8, u128, u16);

#[verifier::external_type_specification]
#[verifier::external_body]
#[verifier::reject_recursive_types(K)]
#[verifier::reject_recursive_types(V)]
#[verifier::reject_recursive_types(S)]
pub struct ExIndexMap<K, V, S>(IndexMap<K, V, S>);

#[verifier::external_type_specification]
#[verifier::external_body]
pub struct ExThreadRng(ThreadRng);

// ---------------------------------------------------------------------------
// Addresses
// ---------------------------------------------------------------------------

/// An IP address, held as the integer of its octets in network order.
#[derive(Clone, Copy, Debug, PartialEq, Eq, Structural)]
pub enum IpAddress {
    V4(u32),
    V6(u128),
}

/// A remote socket address: IP address and port.
#[derive(Clone, Copy, Debug, PartialEq, Eq, Structural)]
pub struct SocketAddress {
    pub ip: IpAddress,
    pub port: u16,
}

/// The port that a pool for `port` is kept under when the pool type shifts
/// ports by `offset`: the shifted port, or the port itself when the shift
/// would leave the range of ports.
pub open spec fn spec_shifted_port(port: u16, offset: u16) -> u16 {
    if port + offset <= u16::MAX {
        (port + offset) as u16
    } else {
        port
    }
}

/// The cache key of an IP address and port.
pub open spec fn spec_key_of(ip: IpAddress, port: u16) -> CacheKey {
    match ip {
        IpAddress::V4(a) => (4u8, a as u128, port),
        IpAddress::V6(a) => (6u8, a, port),
    }
}

/// The cache key under which connections to `addr` are pooled.
pub open spec fn spec_pool_key(addr: SocketAddress, offset: u16) -> CacheKey {
    spec_key_of(addr.ip, spec_shifted_port(addr.port, offset))
}

/// The port to connect to for `port`, shifted by `offset` unless that
/// overflows.
pub fn shifted_port(port: u16, offset: u16) -> (r: u16)
    ensures
        r == spec_shifted_port(port, offset),
{
    match port.checked_add(offset) {
        Some(p) => p,
        None => port,
    }
}

/// The cache key under which connections to `addr` are pooled, for a pool
/// type that shifts ports by `offset`.
pub fn pool_key(addr: &SocketAddress, offset: u16) -> (r: CacheKey)
    ensures
        r == spec_pool_key(*addr, offset),
{
    let port = shifted_port(addr.port, offset);
    match addr.ip {
        IpAddress::V4(a) => (4u8, a as u128, port),
        IpAddress::V6(a) => (6u8, a, port),
    }
}

// ---------------------------------------------------------------------------
// Connection pools
// ---------------------------------------------------------------------------

/// A pool of connections to one remote address. Every connection of a pool is
/// made from the same configuration and address, so a pool is known by how
/// many connections it holds; a connection is named by its index in the pool.
#[derive(Clone, Copy, Debug, PartialEq, Eq, Structural)]
pub struct UdpPool {
    pub num_connections: usize,
}

/// The pool holding `n` connections.
pub open spec fn spec_pool(n: usize) -> UdpPool {
    UdpPool { num_connections: n }
}

impl UdpPool {
    /// The number of connections in the pool.
    pub open spec fn count(self) -> nat {
        self.num_connections as nat
    }

    /// A pool holding one new connection.
    pub fn new_with_connection() -> (p: UdpPool)
        ensures
            p == spec_pool(1),
    {
        UdpPool { num_connections: 1 }
    }

    /// Adds one connection to the pool.
    pub fn add_connection(&mut self)
        requires
            old(self).count() < usize::MAX,
        ensures
            final(self).count() == old(self).count() + 1,
    {
        self.num_connections = self.num_connections + 1;
    }

    /// The number of connections in the pool.
    pub fn num_connections(&self) -> (n: usize)
        ensures
            n == self.count(),
    {
        self.num_connections
    }

    /// Whether the pool holds fewer connections than `required_pool_size`.
    pub fn need_new_connection(&self, required_pool_size: usize) -> (r: bool)
        ensures
            r == (self.count() < required_pool_size),
    {
        self.num_connections < required_pool_size
    }

    /// Picks one of the pool's connections at random and returns its index.
    pub fn borrow_connection(&self) -> (i: usize)
        requires
            self.count() > 0,
        ensures
            i < self.count(),
    {
        let mut rng = new_thread_rng();
        random_index(&mut rng, 0, self.num_connections)
    }
}

/// `rand::thread_rng`: the thread-local random number generator.
#[verifier::external_body]
fn new_thread_rng() -> ThreadRng {
    rand::thread_rng()
}

/// `Rng::gen_range` on a `usize` range: a random value in `[low, high)`. The
/// function panics when `low >= high`, which `requires` rules out; which value
/// comes out depends on chance.
#[verifier::external_body]
fn random_index(rng: &mut ThreadRng, low: usize, high: usize) -> (r: usize)
    requires
        low < high,
    ensures
        low <= r < high,
{
    rng.gen_range(low, high)
}

// ---------------------------------------------------------------------------
// The cache map
// ---------------------------------------------------------------------------

/// The entries of the cache map, in the map's order.
pub uninterp spec fn index_map_entries(m: IndexMap<CacheKey, UdpPool>) -> Seq<(CacheKey, UdpPool)>;

/// Whether some entry has key `k`.
pub open spec fn has_key(e: Seq<(CacheKey, UdpPool)>, k: CacheKey) -> bool {
    exists|i: int| 0 <= i < e.len() && (#[trigger] e[i]).0 == k
}

/// The position of the entry with key `k` (meaningful when `has_key`).
pub open spec fn key_index(e: Seq<(CacheKey, UdpPool)>, k: CacheKey) -> int {
    choose|i: int| 0 <= i < e.len() && (#[trigger] e[i]).0 == k
}

/// The pool stored under `k`, if any.
pub open spec fn lookup(e: Seq<(CacheKey, UdpPool)>, k: CacheKey) -> Option<UdpPool> {
    if has_key(e, k) {
        Some(e[key_index(e, k)].1)
    } else {
        None
    }
}

/// No two entries share a key.
pub open spec fn keys_distinct(e: Seq<(CacheKey, UdpPool)>) -> bool {
    forall|i: int, j: int| 0 <= i < j < e.len() ==> (#[trigger] e[i]).0 != (#[trigger] e[j]).0
}

/// The entries after inserting `v` under `k`: an existing entry keeps its
/// place and takes the new value; a new key goes last.
pub open spec fn insert_entry(e: Seq<(CacheKey, UdpPool)>, k: CacheKey, v: UdpPool) -> Seq<(CacheKey, UdpPool)> {
    if has_key(e, k) {
        e.update(key_index(e, k), (k, v))
    } else {
        e.push((k, v))
    }
}

/// The entries after removing the one at `i` by moving the last entry into
/// its place.
pub open spec fn swap_remove_entry(e: Seq<(CacheKey, UdpPool)>, i: int) -> Seq<(CacheKey, UdpPool)> {
    e.update(i, e.last()).drop_last()
}

/// `IndexMap::with_capacity`: a new map holds no entries.
#[verifier::external_body]
fn index_map_with_capacity(n: usize) -> (m: IndexMap<CacheKey, UdpPool>)
    requires
        n <= MAX_CONNECTIONS,
    ensures
        index_map_entries(m) == Seq::<(CacheKey, UdpPool)>::empty(),
{
    IndexMap::with_capacity(n)
}

/// `IndexMap::len`: the number of entries.
#[verifier::external_body]
fn index_map_len(m: &IndexMap<CacheKey, UdpPool>) -> (n: usize)
    ensures
        n == index_map_entries(*m).len(),
{
    m.len()
}

/// `IndexMap::get`: the value stored under `key`, if any (copied out).
#[verifier::external_body]
fn index_map_get(m: &IndexMap<CacheKey, UdpPool>, key: &CacheKey) -> (r: Option<UdpPool>)
    requires
        keys_distinct(index_map_entries(*m)),
    ensures
        r == lookup(index_map_entries(*m), *key),
{
    m.get(key).copied()
}

/// `IndexMap::insert`: an existing key keeps its place and takes the new
/// value, which returns the old one; a new key is appended last.
#[verifier::external_body]
fn index_map_insert(m: &mut IndexMap<CacheKey, UdpPool>, key: CacheKey, value: UdpPool) -> (r: Option<UdpPool>)
    requires
        keys_distinct(index_map_entries(*old(m))),
    ensures
        index_map_entries(*final(m)) == insert_entry(index_map_entries(*old(m)), key, value),
        r == lookup(index_map_entries(*old(m)), key),
{
    m.insert(key, value)
}

/// `IndexMap::swap_remove_index`: removes the entry at `index` by moving the
/// last entry into its place, and returns it; out of range, nothing changes.
#[verifier::external_body]
fn index_map_swap_remove_index(m: &mut IndexMap<CacheKey, UdpPool>, index: usize) -> (r: Option<(CacheKey, UdpPool)>)
    ensures
        index < index_map_entries(*old(m)).len() ==> {
            &&& r == Some(index_map_entries(*old(m))[index as int])
            &&& index_map_entries(*final(m)) == swap_remove_entry(index_map_entries(*old(m)), index as int)
        },
        index >= index_map_entries(*old(m)).len() ==> {
            &&& r is None
            &&& index_map_entries(*final(m)) == index_map_entries(*old(m))
        },
{
    m.swap_remove_index(index)
}


// ---------------------------------------------------------------------------
// Statistics
// ---------------------------------------------------------------------------

/// Counters kept by one client connection, added into the cache totals.
#[derive(Clone, Copy, Debug, PartialEq, Eq, Structural)]
pub struct ClientStats {
    pub total_connections: u64,
    pub connection_reuse: u64,
    pub connection_errors: u64,
    pub zero_rtt_accepts: u64,
    pub zero_rtt_rejects: u64,
    pub make_connection_ms: u64,
    pub congestion_events: u64,
    pub tx_streams_blocked_uni: u64,
    pub tx_data_blocked: u64,
    pub tx_acks: u64,
}

/// Counters of the connection cache; every counter wraps around on overflow.
#[derive(Clone, Copy, Debug, PartialEq, Eq, Structural)]
pub struct ConnectionCacheStats {
    pub cache_hits: u64,
    pub cache_misses: u64,
    pub cache_evictions: u64,
    pub eviction_time_ms: u64,
    pub sent_packets: u64,
    pub total_batches: u64,
    pub batch_success: u64,
    pub batch_failure: u64,
    pub get_connection_ms: u64,
    pub get_connection_lock_ms: u64,
    pub get_connection_hit_ms: u64,
    pub get_connection_miss_ms: u64,
    pub total_client_stats: ClientStats,
}

/// The values reported for one statistics period, in the order in which they
/// are submitted.
#[derive(Clone, Copy, Debug, PartialEq, Eq, Structural)]
pub struct ConnectionStatsReport {
    pub cache_hits: u64,
    pub cache_misses: u64,
    pub cache_evictions: u64,
    pub eviction_time_ms: u64,
    pub get_connection_ms: u64,
    pub get_connection_lock_ms: u64,
    pub get_connection_hit_ms: u64,
    pub get_connection_miss_ms: u64,
    pub make_connection_ms: u64,
    pub total_connections: u64,
    pub connection_reuse: u64,
    pub connection_errors: u64,
    pub zero_rtt_accepts: u64,
    pub zero_rtt_rejects: u64,
    pub congestion_events: u64,
    pub tx_streams_blocked_uni: u64,
    pub tx_data_blocked: u64,
    pub tx_acks: u64,
    pub num_packets: u64,
    pub total_batches: u64,
    pub batch_failure: u64,
}

/// Client counters that are all zero.
pub open spec fn spec_zero_client_stats() -> ClientStats {
    ClientStats {
        total_connections: 0,
        connection_reuse: 0,
        connection_errors: 0,
        zero_rtt_accepts: 0,
        zero_rtt_rejects: 0,
        make_connection_ms: 0,
        congestion_events: 0,
        tx_streams_blocked_uni: 0,
        tx_data_blocked: 0,
        tx_acks: 0,
    }
}

/// Cache counters that are all zero.
pub open spec fn spec_zero_stats() -> ConnectionCacheStats {
    ConnectionCacheStats {
        cache_hits: 0,
        cache_misses: 0,
        cache_evictions: 0,
        eviction_time_ms: 0,
        sent_packets: 0,
        total_batches: 0,
        batch_success: 0,
        batch_failure: 0,
        get_connection_ms: 0,
        get_connection_lock_ms: 0,
        get_connection_hit_ms: 0,
        get_connection_miss_ms: 0,
        total_client_stats: spec_zero_client_stats(),
    }
}

/// The counters after adding the counters of one client and one batch of
/// `num_packets` packets that succeeded or failed.
pub open spec fn spec_add_client_stats(
    s: ConnectionCacheStats,
    c: ClientStats,
    num_packets: u64,
    is_success: bool,
) -> ConnectionCacheStats {
    ConnectionCacheStats {
        sent_packets: wrapping_add(s.sent_packets, num_packets),
        total_batches: wrapping_add(s.total_batches, 1),
        batch_success: if is_success { wrapping_add(s.batch_success, 1) } else { s.batch_success },
        batch_failure: if is_success { s.batch_failure } else { wrapping_add(s.batch_failure, 1) },
        total_client_stats: ClientStats {
            total_connections: wrapping_add(s.total_client_stats.total_connections, c.total_connections),
            connection_reuse: wrapping_add(s.total_client_stats.connection_reuse, c.connection_reuse),
            connection_errors: wrapping_add(s.total_client_stats.connection_errors, c.connection_errors),
            zero_rtt_accepts: wrapping_add(s.total_client_stats.zero_rtt_accepts, c.zero_rtt_accepts),
            zero_rtt_rejects: wrapping_add(s.total_client_stats.zero_rtt_rejects, c.zero_rtt_rejects),
            make_connection_ms: wrapping_add(s.total_client_stats.make_connection_ms, c.make_connection_ms),
            ..s.total_client_stats
        },
        ..s
    }
}

/// The report of the counters `s`.
pub open spec fn spec_report(s: ConnectionCacheStats) -> ConnectionStatsReport {
    ConnectionStatsReport {
        cache_hits: s.cache_hits,
        cache_misses: s.cache_misses,
        cache_evictions: s.cache_evictions,
        eviction_time_ms: s.eviction_time_ms,
        get_connection_ms: s.get_connection_ms,
        get_connection_lock_ms: s.get_connection_lock_ms,
        get_connection_hit_ms: s.get_connection_hit_ms,
        get_connection_miss_ms: s.get_connection_miss_ms,
        make_connection_ms: s.total_client_stats.make_connection_ms,
        total_connections: s.total_client_stats.total_connections,
        connection_reuse: s.total_client_stats.connection_reuse,
        connection_errors: s.total_client_stats.connection_errors,
        zero_rtt_accepts: s.total_client_stats.zero_rtt_accepts,
        zero_rtt_rejects: s.total_client_stats.zero_rtt_rejects,
        congestion_events: s.total_client_stats.congestion_events,
        tx_streams_blocked_uni: s.total_client_stats.tx_streams_blocked_uni,
        tx_data_blocked: s.total_client_stats.tx_data_blocked,
        tx_acks: s.total_client_stats.tx_acks,
        num_packets: s.sent_packets,
        total_batches: s.total_batches,
        batch_failure: s.batch_failure,
    }
}

/// The counters after a report: every reported counter is back at zero; the
/// count of successful batches, which is not reported, stays.
pub open spec fn spec_reset(s: ConnectionCacheStats) -> ConnectionCacheStats {
    ConnectionCacheStats { batch_success: s.batch_success, ..spec_zero_stats() }
}

impl ClientStats {
    /// Client counters that are all zero.
    pub fn new() -> (r: ClientStats)
        ensures
            r == spec_zero_client_stats(),
    {
        ClientStats {
            total_connections: 0,
            connection_reuse: 0,
            connection_errors: 0,
            zero_rtt_accepts: 0,
            zero_rtt_rejects: 0,
            make_connection_ms: 0,
            congestion_events: 0,
            tx_streams_blocked_uni: 0,
            tx_data_blocked: 0,
            tx_acks: 0,
        }
    }
}

impl Default for ClientStats {
    fn default() -> (r: ClientStats)
        ensures
            r == spec_zero_client_stats(),
    {
        ClientStats::new()
    }
}

impl Default for ConnectionCacheStats {
    fn default() -> (r: ConnectionCacheStats)
        ensures
            r == spec_zero_stats(),
    {
        ConnectionCacheStats {
            cache_hits: 0,
            cache_misses: 0,
            cache_evictions: 0,
            eviction_time_ms: 0,
            sent_packets: 0,
            total_batches: 0,
            batch_success: 0,
            batch_failure: 0,
            get_connection_ms: 0,
            get_connection_lock_ms: 0,
            get_connection_hit_ms: 0,
            get_connection_miss_ms: 0,
            total_client_stats: ClientStats::new(),
        }
    }
}

impl ConnectionCacheStats {
    /// Adds the counters of one client into the totals, counts `num_packets`
    /// sent packets and one batch, and counts that batch as a success or a
    /// failure.
    pub fn add_client_stats(&mut self, client_stats: &ClientStats, num_packets: usize, is_success: bool)
        ensures
            *final(self) == spec_add_client_stats(*old(self), *client_stats, num_packets as u64, is_success),
    {
        let t = &mut self.total_client_stats;
        t.total_connections = t.total_connections.wrapping_add(client_stats.total_connections);
        t.connection_reuse = t.connection_reuse.wrapping_add(client_stats.connection_reuse);
        t.connection_errors = t.connection_errors.wrapping_add(client_stats.connection_errors);
        t.zero_rtt_accepts = t.zero_rtt_accepts.wrapping_add(client_stats.zero_rtt_accepts);
        t.zero_rtt_rejects = t.zero_rtt_rejects.wrapping_add(client_stats.zero_rtt_rejects);
        t.make_connection_ms = t.make_connection_ms.wrapping_add(client_stats.make_connection_ms);
        self.sent_packets = self.sent_packets.wrapping_add(num_packets as u64);
        self.total_batches = self.total_batches.wrapping_add(1);
        if is_success {
            self.batch_success = self.batch_success.wrapping_add(1);
        } else {
            self.batch_failure = self.batch_failure.wrapping_add(1);
        }
    }

    /// Where metrics are being recorded (`metrics_enabled`), takes the values
    /// of the reported counters for one period and sets each of them back to
    /// zero; where they are not, takes nothing and leaves every counter as it
    /// was.
    pub fn report(&mut self, metrics_enabled: bool) -> (r: Option<ConnectionStatsReport>)
        ensures
            metrics_enabled ==> r == Some(spec_report(*old(self))) && *final(self) == spec_reset(*old(self)),
            !metrics_enabled ==> r is None && *final(self) == *old(self),
    {
        if !metrics_enabled {
            return None;
        }
        let r = ConnectionStatsReport {
            cache_hits: self.cache_hits,
            cache_misses: self.cache_misses,
            cache_evictions: self.cache_evictions,
            eviction_time_ms: self.eviction_time_ms,
            get_connection_ms: self.get_connection_ms,
            get_connection_lock_ms: self.get_connection_lock_ms,
            get_connection_hit_ms: self.get_connection_hit_ms,
            get_connection_miss_ms: self.get_connection_miss_ms,
            make_connection_ms: self.total_client_stats.make_connection_ms,
            total_connections: self.total_client_stats.total_connections,
            connection_reuse: self.total_client_stats.connection_reuse,
            connection_errors: self.total_client_stats.connection_errors,
            zero_rtt_accepts: self.total_client_stats.zero_rtt_accepts,
            zero_rtt_rejects: self.total_client_stats.zero_rtt_rejects,
            congestion_events: self.total_client_stats.congestion_events,
            tx_streams_blocked_uni: self.total_client_stats.tx_streams_blocked_uni,
            tx_data_blocked: self.total_client_stats.tx_data_blocked,
            tx_acks: self.total_client_stats.tx_acks,
            num_packets: self.sent_packets,
            total_batches: self.total_batches,
            batch_failure: self.batch_failure,
        };
        let batch_success = self.batch_success;
        *self = ConnectionCacheStats::default();
        self.batch_success = batch_success;
        Some(r)
    }
}


// ---------------------------------------------------------------------------
// Facts about the entry sequences
// ---------------------------------------------------------------------------

/// Every pool holds at least one and at most `size` connections.
pub open spec fn counts_within(e: Seq<(CacheKey, UdpPool)>, size: nat) -> bool {
    forall|i: int| 0 <= i < e.len() ==> 1 <= (#[trigger] e[i]).1.count() <= size
}

/// With distinct keys, the entry at `i` is the one found for its key.
pub proof fn lemma_lookup_at(e: Seq<(CacheKey, UdpPool)>, i: int)
    requires
        keys_distinct(e),
        0 <= i < e.len(),
    ensures
        has_key(e, e[i].0),
        key_index(e, e[i].0) == i,
        lookup(e, e[i].0) == Some(e[i].1),
{
    assert(has_key(e, e[i].0));
    let j = key_index(e, e[i].0);
    assert(e[j].0 == e[i].0);
    if j < i {
        assert(e[j].0 != e[i].0);
    } else if i < j {
        assert(e[i].0 != e[j].0);
    }
}

/// Inserting keeps keys distinct, stores the value under its key, and leaves
/// every other key's value as it was.
pub proof fn lemma_insert(e: Seq<(CacheKey, UdpPool)>, k: CacheKey, v: UdpPool)
    requires
        keys_distinct(e),
    ensures
        keys_distinct(insert_entry(e, k, v)),
        lookup(insert_entry(e, k, v), k) == Some(v),
        forall|k2: CacheKey| k2 != k ==> lookup(insert_entry(e, k, v), k2) == lookup(e, k2),
        insert_entry(e, k, v).len() == if has_key(e, k) { e.len() } else { e.len() + 1 },
        forall|i: int|
            0 <= i < insert_entry(e, k, v).len() ==> #[trigger] insert_entry(e, k, v)[i] == (k, v)
                || (i < e.len() && insert_entry(e, k, v)[i] == e[i]),
{
    let r = insert_entry(e, k, v);
    if has_key(e, k) {
        let p = key_index(e, k);
        assert forall|i: int, j: int| 0 <= i < j < r.len() implies (#[trigger] r[i]).0 != (#[trigger] r[j]).0 by {
            if i != p && j != p {
                assert(e[i].0 != e[j].0);
            } else if i == p {
                assert(e[p].0 != e[j].0);
            } else {
                assert(e[i].0 != e[p].0);
            }
        }
        lemma_lookup_at(r, p);
        assert forall|k2: CacheKey| k2 != k implies lookup(r, k2) == lookup(e, k2) by {
            if has_key(e, k2) {
                let q = key_index(e, k2);
                assert(q != p);
                lemma_lookup_at(e, q);
                assert(r[q] == e[q]);
                lemma_lookup_at(r, q);
            }
            if has_key(r, k2) {
                let q = key_index(r, k2);
                assert(q != p);
                assert(r[q] == e[q]);
                lemma_lookup_at(e, q);
            }
        }
    } else {
        assert forall|i: int, j: int| 0 <= i < j < r.len() implies (#[trigger] r[i]).0 != (#[trigger] r[j]).0 by {
            if j == e.len() {
                assert(e[i] == r[i]);
                if e[i].0 == k {
                    assert(has_key(e, k));
                }
            } else {
                assert(e[i].0 != e[j].0);
            }
        }
        lemma_lookup_at(r, e.len() as int);
        assert forall|k2: CacheKey| k2 != k implies lookup(r, k2) == lookup(e, k2) by {
            if has_key(e, k2) {
                let q = key_index(e, k2);
                lemma_lookup_at(e, q);
                assert(r[q] == e[q]);
                lemma_lookup_at(r, q);
            }
            if has_key(r, k2) {
                let q = key_index(r, k2);
                assert(q != e.len());
                assert(r[q] == e[q]);
                lemma_lookup_at(e, q);
            }
        }
    }
}

/// Removing the entry at `n` keeps keys distinct, shortens the sequence by
/// one, and every remaining entry was an entry before; the removed key is
/// gone and every other key keeps its value.
pub proof fn lemma_swap_remove(e: Seq<(CacheKey, UdpPool)>, n: int)
    requires
        keys_distinct(e),
        0 <= n < e.len(),
    ensures
        keys_distinct(swap_remove_entry(e, n)),
        swap_remove_entry(e, n).len() == e.len() - 1,
        forall|i: int|
            0 <= i < swap_remove_entry(e, n).len() ==> exists|j: int|
                0 <= j < e.len() && #[trigger] swap_remove_entry(e, n)[i] == e[j],
        !has_key(swap_remove_entry(e, n), e[n].0),
        forall|k: CacheKey| k != e[n].0 ==> lookup(swap_remove_entry(e, n), k) == lookup(e, k),
{
    let r = swap_remove_entry(e, n);
    let last = e.len() - 1;
    assert forall|i: int| 0 <= i < r.len() implies r[i] == e[if i == n { last } else { i }] by {}
    assert forall|i: int, j: int| 0 <= i < j < r.len() implies (#[trigger] r[i]).0 != (#[trigger] r[j]).0 by {
        let a = if i == n { last } else { i };
        let b = if j == n { last } else { j };
        if a < b {
            assert(e[a].0 != e[b].0);
        } else {
            assert(e[b].0 != e[a].0);
        }
    }
    assert forall|i: int| 0 <= i < r.len() implies exists|j: int| 0 <= j < e.len() && #[trigger] r[i] == e[j] by {
        let a = if i == n { last } else { i };
        assert(r[i] == e[a]);
    }
    if has_key(r, e[n].0) {
        let q = key_index(r, e[n].0);
        let a = if q == n { last } else { q };
        assert(r[q] == e[a]);
        assert(a != n);
        if a < n {
            assert(e[a].0 != e[n].0);
        } else {
            assert(e[n].0 != e[a].0);
        }
    }
    assert forall|k: CacheKey| k != e[n].0 implies lookup(r, k) == lookup(e, k) by {
        if has_key(e, k) {
            let q = key_index(e, k);
            lemma_lookup_at(e, q);
            assert(q != n);
            let p = if q == last { n } else { q };
            assert(r[p] == e[q]);
            lemma_lookup_at(r, p);
        }
        if has_key(r, k) {
            let q = key_index(r, k);
            let a = if q == n { last } else { q };
            assert(r[q] == e[a]);
            lemma_lookup_at(e, a);
        }
    }
}

// ---------------------------------------------------------------------------
// The cache
// ---------------------------------------------------------------------------

/// Whether a request for key `k` must add a connection: its pool is missing
/// or holds fewer than `size` connections.
pub open spec fn needs_connection(e: Seq<(CacheKey, UdpPool)>, k: CacheKey, size: nat) -> bool {
    match lookup(e, k) {
        Some(p) => p.count() < size,
        None => true,
    }
}

/// The entries after adding one connection for `k`: one more in its pool, or
/// a new pool of one connection placed last.
pub open spec fn add_connection_entry(e: Seq<(CacheKey, UdpPool)>, k: CacheKey) -> Seq<(CacheKey, UdpPool)> {
    match lookup(e, k) {
        Some(p) => insert_entry(e, k, spec_pool((p.num_connections + 1) as usize)),
        None => insert_entry(e, k, spec_pool(1)),
    }
}

/// The entries after making room and adding a connection for `k`: when the
/// cache is full, the entry at `n` is evicted first.
pub open spec fn spec_grown(e: Seq<(CacheKey, UdpPool)>, k: CacheKey, n: int) -> Seq<(CacheKey, UdpPool)> {
    let room = if e.len() >= MAX_CONNECTIONS { swap_remove_entry(e, n) } else { e };
    add_connection_entry(room, k)
}

/// How a request for key `k` changes the entries `e` into `e2`: on a miss,
/// one entry chosen at random is evicted when the cache is full, then a
/// connection is added for `k`; on a hit nothing changes. `evictions` counts
/// the evicted entries.
pub open spec fn connection_outcome(
    e: Seq<(CacheKey, UdpPool)>,
    k: CacheKey,
    size: nat,
    e2: Seq<(CacheKey, UdpPool)>,
    hit: bool,
    evictions: u64,
) -> bool {
    if needs_connection(e, k, size) {
        &&& !hit
        &&& evictions == (if e.len() >= MAX_CONNECTIONS { 1u64 } else { 0u64 })
        &&& exists|n: int| 0 <= n < MAX_CONNECTIONS && e2 == #[trigger] spec_grown(e, k, n)
    } else {
        &&& hit
        &&& evictions == 0
        &&& e2 == e
    }
}

/// The counters after one request is logged: a hit or a miss is counted with
/// the time spent in the map (`map_ms`), a miss also counts its evictions and
/// their time, and the lock wait and total time are added.
pub open spec fn spec_logged(
    s: ConnectionCacheStats,
    hit: bool,
    evictions: u64,
    map_ms: u64,
    eviction_ms: u64,
    lock_ms: u64,
    total_ms: u64,
) -> ConnectionCacheStats {
    let s2 = if hit {
        ConnectionCacheStats {
            cache_hits: wrapping_add(s.cache_hits, 1),
            get_connection_hit_ms: wrapping_add(s.get_connection_hit_ms, map_ms),
            ..s
        }
    } else {
        ConnectionCacheStats {
            cache_misses: wrapping_add(s.cache_misses, 1),
            get_connection_miss_ms: wrapping_add(s.get_connection_miss_ms, map_ms),
            cache_evictions: wrapping_add(s.cache_evictions, evictions),
            eviction_time_ms: wrapping_add(s.eviction_time_ms, eviction_ms),
            ..s
        }
    };
    ConnectionCacheStats {
        get_connection_lock_ms: wrapping_add(s2.get_connection_lock_ms, lock_ms),
        get_connection_ms: wrapping_add(s2.get_connection_ms, total_ms),
        ..s2
    }
}

/// The statistics limiter, standing at `last` before a request, stands at
/// `after` once the request read the clock: for some clock reading it moved
/// to that reading or stayed, as `AtomicInterval::should_update` leaves it.
pub open spec fn limiter_stepped(last: u64, after: u64) -> bool {
    exists|now: u64| after == #[trigger] spec_limiter_after(last, now, CONNECTION_STAT_SUBMISSION_INTERVAL)
}

/// A statistics report is due when the limiter moved from `last` to `after`
/// and had moved before (its very first move reports nothing).
pub open spec fn report_due(last: u64, after: u64) -> bool {
    after != last && last != 0
}

/// What a connection request found or made in the map.
struct CreateConnectionResult {
    connection_index: usize,
    cache_hit: bool,
    num_evictions: u64,
    eviction_timing_ms: u64,
}

/// What a connection request found or made, with its timings.
struct GetConnectionResult {
    pool_key: CacheKey,
    connection_index: usize,
    cache_hit: bool,
    report_stats: bool,
    map_timing_ms: u64,
    num_evictions: u64,
    eviction_timing_ms: u64,
}

/// A connection handed out by the cache: the address asked for, the key of
/// the pool it belongs to and its index there, and the statistics report that
/// became due with this request, if any.
pub struct CachedConnection {
    pub tpu_addr: SocketAddress,
    pub pool_key: CacheKey,
    pub connection_index: usize,
    pub stats_report: Option<ConnectionStatsReport>,
}

/// A cache of connection pools keyed by remote address, bounded to
/// `MAX_CONNECTIONS` addresses, each pool bounded to the configured pool size.
pub struct ConnectionCache {
    map: IndexMap<CacheKey, UdpPool>,
    stats: ConnectionCacheStats,
    last_stats: AtomicInterval,
    connection_pool_size: usize,
    port_offset: u16,
}

impl ConnectionCache {
    /// The cached pools, in the map's order.
    pub closed spec fn entries(&self) -> Seq<(CacheKey, UdpPool)> {
        index_map_entries(self.map)
    }

    /// The cache's counters.
    pub closed spec fn counters(&self) -> ConnectionCacheStats {
        self.stats
    }

    /// The number of connections kept per address.
    pub closed spec fn pool_size(&self) -> nat {
        self.connection_pool_size as nat
    }

    /// How far the pool type shifts ports.
    pub closed spec fn offset(&self) -> u16 {
        self.port_offset
    }

    /// Where the statistics rate limiter stands: the wall-clock time, in ms,
    /// of its last move (zero: never).
    pub closed spec fn limiter_last(&self) -> u64 {
        self.last_stats.last()
    }

    /// The cache is well formed: keys are distinct, at most `MAX_CONNECTIONS`
    /// pools are cached, the pool size is at least one, and every pool holds
    /// between one and pool-size connections.
    pub open spec fn wf(&self) -> bool {
        &&& keys_distinct(self.entries())
        &&& self.entries().len() <= MAX_CONNECTIONS
        &&& self.pool_size() >= 1
        &&& counts_within(self.entries(), self.pool_size())
    }

    /// Every cache is well formed: constructors establish it and every
    /// method keeps it.
    #[verifier::type_invariant]
    spec fn well_formed(&self) -> bool {
        self.wf()
    }

    /// An empty cache keeping `connection_pool_size` connections per address
    /// (at least one), for a pool type that shifts ports by `port_offset`.
    pub fn with_port_offset(connection_pool_size: usize, port_offset: u16) -> (c: ConnectionCache)
        ensures
            c.wf(),
            c.entries() == Seq::<(CacheKey, UdpPool)>::empty(),
            c.pool_size() == if connection_pool_size >= 1 { connection_pool_size as nat } else { 1 },
            c.offset() == port_offset,
            c.counters() == spec_zero_stats(),
            c.limiter_last() == 0,
    {
        let size = if connection_pool_size >= 1 { connection_pool_size } else { 1 };
        ConnectionCache {
            map: index_map_with_capacity(MAX_CONNECTIONS),
            stats: ConnectionCacheStats::default(),
            last_stats: AtomicInterval::new(),
            connection_pool_size: size,
            port_offset,
        }
    }

    /// An empty cache keeping `connection_pool_size` connections per address
    /// (at least one); UDP pools do not shift ports.
    pub fn new(connection_pool_size: usize) -> (c: ConnectionCache)
        ensures
            c.wf(),
            c.entries() == Seq::<(CacheKey, UdpPool)>::empty(),
            c.pool_size() == if connection_pool_size >= 1 { connection_pool_size as nat } else { 1 },
            c.offset() == 0,
            c.counters() == spec_zero_stats(),
            c.limiter_last() == 0,
    {
        Self::with_port_offset(connection_pool_size, 0)
    }

    /// The number of connections kept per address.
    pub fn connection_pool_size(&self) -> (r: usize)
        ensures
            r == self.pool_size(),
    {
        self.connection_pool_size
    }

    /// The number of addresses with a cached pool.
    pub fn num_pools(&self) -> (r: usize)
        ensures
            r == self.entries().len(),
    {
        index_map_len(&self.map)
    }

    /// The pool cached for connections to `addr`, if any.
    pub fn get_pool(&self, addr: &SocketAddress) -> (r: Option<UdpPool>)
        ensures
            r == lookup(self.entries(), spec_pool_key(*addr, self.offset())),
    {
        proof {
            use_type_invariant(self);
        }
        let key = pool_key(addr, self.port_offset);
        index_map_get(&self.map, &key)
    }

    /// Adds a connection for `key` when its pool is missing or not full,
    /// evicting a random pool first when the cache is full, then picks one of
    /// the pool's connections at random.
    fn create_connection(&mut self, key: CacheKey) -> (r: CreateConnectionResult)
        ensures
            final(self).wf(),
            final(self).pool_size() == old(self).pool_size(),
            final(self).offset() == old(self).offset(),
            final(self).counters() == old(self).counters(),
            final(self).limiter_last() == old(self).limiter_last(),
            connection_outcome(
                old(self).entries(),
                key,
                old(self).pool_size(),
                final(self).entries(),
                r.cache_hit,
                r.num_evictions,
            ),
            r.cache_hit ==> r.eviction_timing_ms == 0,
            r.num_evictions == (if r.cache_hit || old(self).entries().len() < MAX_CONNECTIONS {
                0
            } else {
                old(self).entries().len() - MAX_CONNECTIONS + 1
            }),
            final(self).entries().len() <= MAX_CONNECTIONS,
            has_key(final(self).entries(), key),
            lookup(final(self).entries(), key)->0.count() >= 1,
            r.connection_index < lookup(final(self).entries(), key)->0.count(),
    {
        proof {
            use_type_invariant(&*self);
        }
        let ghost e0 = self.entries();
        let ghost size = self.pool_size();
        let ghost off = self.offset();
        let ghost counters = self.counters();
        let ghost lim = self.limiter_last();
        let mut map = index_map_with_capacity(0);
        std::mem::swap(&mut map, &mut self.map);
        let full_pool = match index_map_get(&map, &key) {
            Some(pool) => if pool.need_new_connection(self.connection_pool_size) {
                None
            } else {
                Some(pool)
            },
            None => None,
        };
        let r = if let Some(pool) = full_pool {
            proof {
                let q = key_index(e0, key);
                lemma_lookup_at(e0, q);
            }
            let connection_index = pool.borrow_connection();
            CreateConnectionResult { connection_index, cache_hit: true, num_evictions: 0, eviction_timing_ms: 0 }
        } else {
            let mut num_evictions: u64 = 0;
            let ghost mut evicted: int = 0;
            let mut measure = Measure::start("get_connection_cache_eviction_measure");
            while index_map_len(&map) >= MAX_CONNECTIONS
                invariant
                    size >= 1,
                    keys_distinct(index_map_entries(map)),
                    index_map_entries(map).len() <= MAX_CONNECTIONS,
                    counts_within(index_map_entries(map), size),
                    num_evictions <= 1,
                    0 <= evicted < MAX_CONNECTIONS,
                    num_evictions == 0 ==> index_map_entries(map) == e0,
                    num_evictions == 1 ==> {
                        &&& e0.len() >= MAX_CONNECTIONS
                        &&& index_map_entries(map) == swap_remove_entry(e0, evicted)
                    },
                    e0.len() <= MAX_CONNECTIONS,
                    keys_distinct(e0),
                decreases index_map_entries(map).len(),
            {
                let mut rng = new_thread_rng();
                let n = random_index(&mut rng, 0, MAX_CONNECTIONS);
                let ghost before = index_map_entries(map);
                index_map_swap_remove_index(&mut map, n);
                proof {
                    lemma_swap_remove(before, n as int);
                    evicted = n as int;
                    let now = index_map_entries(map);
                    assert forall|i: int| 0 <= i < now.len() implies 1 <= (#[trigger] now[i]).1.count() <= size by {
                        let j = choose|j: int| 0 <= j < before.len() && now[i] == before[j];
                        assert(before[j] == now[i]);
                    }
                }
                num_evictions = num_evictions + 1;
            }
            measure.stop();
            let ghost e1 = index_map_entries(map);
            proof {
                if num_evictions == 1 {
                    lemma_swap_remove(e0, evicted);
                }
            }
            let pool = match index_map_get(&map, &key) {
                Some(pool) => {
                    proof {
                        let q = key_index(e1, key);
                        lemma_lookup_at(e1, q);
                        if num_evictions == 1 {
                            assert(key != e0[evicted].0);
                        }
                    }
                    let mut pool = pool;
                    pool.add_connection();
                    pool
                },
                None => UdpPool::new_with_connection(),
            };
            index_map_insert(&mut map, key, pool);
            proof {
                lemma_insert(e1, key, pool);
                let e2 = index_map_entries(map);
                assert(e2 == add_connection_entry(e1, key));
                assert(e2 == spec_grown(e0, key, evicted));
                assert forall|i: int| 0 <= i < e2.len() implies 1 <= (#[trigger] e2[i]).1.count() <= size by {
                    if e2[i] != (key, pool) {
                        assert(e2[i] == e1[i]);
                    }
                }
            }
            let connection_index = pool.borrow_connection();
            CreateConnectionResult {
                connection_index,
                cache_hit: false,
                num_evictions,
                eviction_timing_ms: measure.as_ms(),
            }
        };
        std::mem::swap(&mut map, &mut self.map);
        proof {
            law_eviction_count(e0, key, size, self.entries(), r.cache_hit, r.num_evictions);
        }
        r
    }
}


/// The number of evictions a request for `k` makes: one when it needs a new
/// connection while the cache is full, none otherwise.
pub open spec fn spec_evictions(e: Seq<(CacheKey, UdpPool)>, k: CacheKey, size: nat) -> u64 {
    if needs_connection(e, k, size) && e.len() >= MAX_CONNECTIONS {
        1u64
    } else {
        0u64
    }
}

/// The counters before a request's own counts are added: reset when the
/// request took a report, unchanged otherwise.
pub open spec fn spec_after_report(s: ConnectionCacheStats, report: Option<ConnectionStatsReport>) -> ConnectionCacheStats {
    if report is Some {
        spec_reset(s)
    } else {
        s
    }
}

/// Whether a request for `k` is served from its pool as it stands.
pub open spec fn spec_hit(e: Seq<(CacheKey, UdpPool)>, k: CacheKey, size: nat) -> bool {
    !needs_connection(e, k, size)
}

/// The counters `after` are `before` with the request for `k` logged:
/// after the report (if one was taken), the hit or miss with its evictions
/// is counted, and the lock wait `lock_ms` and some time spent in the map,
/// in evictions and in the whole request are added.
pub open spec fn request_logged(
    before: ConnectionCacheStats,
    report: Option<ConnectionStatsReport>,
    e: Seq<(CacheKey, UdpPool)>,
    k: CacheKey,
    size: nat,
    lock_ms: u64,
    after: ConnectionCacheStats,
) -> bool {
    exists|map_ms: u64, eviction_ms: u64, total_ms: u64|
        after == #[trigger] spec_logged(
            spec_after_report(before, report),
            spec_hit(e, k, size),
            spec_evictions(e, k, size),
            map_ms,
            eviction_ms,
            lock_ms,
            total_ms,
        )
}

impl ConnectionCache {
    /// Finds a connection for `addr` (under its shifted port), adding one when
    /// the address has no pool or its pool is not full yet, and tells whether
    /// a statistics report is due.
    fn get_or_add_connection(&mut self, addr: &SocketAddress) -> (r: GetConnectionResult)
        ensures
            final(self).wf(),
            final(self).pool_size() == old(self).pool_size(),
            final(self).offset() == old(self).offset(),
            final(self).counters() == old(self).counters(),
            limiter_stepped(old(self).limiter_last(), final(self).limiter_last()),
            r.report_stats == report_due(old(self).limiter_last(), final(self).limiter_last()),
            r.pool_key == spec_pool_key(*addr, old(self).offset()),
            connection_outcome(
                old(self).entries(),
                r.pool_key,
                old(self).pool_size(),
                final(self).entries(),
                r.cache_hit,
                r.num_evictions,
            ),
            r.cache_hit ==> r.eviction_timing_ms == 0,
            r.num_evictions == (if r.cache_hit || old(self).entries().len() < MAX_CONNECTIONS {
                0
            } else {
                old(self).entries().len() - MAX_CONNECTIONS + 1
            }),
            final(self).entries().len() <= MAX_CONNECTIONS,
            has_key(final(self).entries(), r.pool_key),
            lookup(final(self).entries(), r.pool_key)->0.count() >= 1,
            r.connection_index < lookup(final(self).entries(), r.pool_key)->0.count(),
    {
        proof {
            use_type_invariant(&*self);
        }
        let key = pool_key(addr, self.port_offset);
        let ghost lim0 = self.limiter_last();
        let mut limiter = AtomicInterval::new();
        std::mem::swap(&mut limiter, &mut self.last_stats);
        let report_stats = limiter.should_update(CONNECTION_STAT_SUBMISSION_INTERVAL);
        std::mem::swap(&mut limiter, &mut self.last_stats);
        let ghost lim1 = self.limiter_last();
        proof {
            let now = choose|now: u64|
                lim1 == #[trigger] spec_limiter_after(lim0, now, CONNECTION_STAT_SUBMISSION_INTERVAL)
                    && report_stats == spec_interval_elapsed(lim0, now, CONNECTION_STAT_SUBMISSION_INTERVAL, true);
            assert(report_stats == report_due(lim0, lim1));
        }
        let mut map_measure = Measure::start("get_connection_hit_measure");
        let ghost e0 = self.entries();
        let found = index_map_get(&self.map, &key);
        let r = match found {
            Some(pool) => {
                if pool.need_new_connection(self.connection_pool_size) {
                    self.create_connection(key)
                } else {
                    proof {
                        let q = key_index(e0, key);
                        lemma_lookup_at(e0, q);
                    }
                    let connection_index = pool.borrow_connection();
                    CreateConnectionResult {
                        connection_index,
                        cache_hit: true,
                        num_evictions: 0,
                        eviction_timing_ms: 0,
                    }
                }
            },
            None => self.create_connection(key),
        };
        map_measure.stop();
        proof {
            law_eviction_count(e0, key, self.pool_size(), self.entries(), r.cache_hit, r.num_evictions);
        }
        GetConnectionResult {
            pool_key: key,
            connection_index: r.connection_index,
            cache_hit: r.cache_hit,
            report_stats,
            map_timing_ms: map_measure.as_ms(),
            num_evictions: r.num_evictions,
            eviction_timing_ms: r.eviction_timing_ms,
        }
    }

    /// Hands out a connection for `addr` and logs the request: when the rate
    /// limiter says a report is due and metrics are being recorded
    /// (`metrics_enabled`), the reported counters are taken and reset; then
    /// the request is counted as a hit or a miss (with its evictions), and
    /// `lock_timing_ms`, the time the caller waited for the cache, is added.
    pub fn get_connection_and_log_stats(
        &mut self,
        addr: &SocketAddress,
        lock_timing_ms: u64,
        metrics_enabled: bool,
    ) -> (c: CachedConnection)
        ensures
            final(self).wf(),
            final(self).pool_size() == old(self).pool_size(),
            final(self).offset() == old(self).offset(),
            c.tpu_addr == *addr,
            c.pool_key == spec_pool_key(*addr, old(self).offset()),
            connection_outcome(
                old(self).entries(),
                c.pool_key,
                old(self).pool_size(),
                final(self).entries(),
                spec_hit(old(self).entries(), c.pool_key, old(self).pool_size()),
                spec_evictions(old(self).entries(), c.pool_key, old(self).pool_size()),
            ),
            has_key(final(self).entries(), c.pool_key),
            c.connection_index < lookup(final(self).entries(), c.pool_key)->0.count(),
            limiter_stepped(old(self).limiter_last(), final(self).limiter_last()),
            c.stats_report is Some <==> metrics_enabled && report_due(
                old(self).limiter_last(),
                final(self).limiter_last(),
            ),
            c.stats_report is Some ==> c.stats_report == Some(spec_report(old(self).counters())),
            request_logged(
                old(self).counters(),
                c.stats_report,
                old(self).entries(),
                c.pool_key,
                old(self).pool_size(),
                lock_timing_ms,
                final(self).counters(),
            ),
    {
        let ghost e0 = self.entries();
        let ghost size = self.pool_size();
        let ghost s0 = self.counters();
        let mut measure = Measure::start("get_connection_measure");
        let r = self.get_or_add_connection(addr);
        proof {
            assert(r.cache_hit == spec_hit(e0, r.pool_key, size));
            assert(r.num_evictions == spec_evictions(e0, r.pool_key, size));
        }
        let mut stats = ConnectionCacheStats::default();
        std::mem::swap(&mut stats, &mut self.stats);
        let stats_report = if r.report_stats {
            stats.report(metrics_enabled)
        } else {
            None
        };
        let ghost s1 = stats;
        if r.cache_hit {
            stats.cache_hits = stats.cache_hits.wrapping_add(1);
            stats.get_connection_hit_ms = stats.get_connection_hit_ms.wrapping_add(r.map_timing_ms);
        } else {
            stats.cache_misses = stats.cache_misses.wrapping_add(1);
            stats.get_connection_miss_ms = stats.get_connection_miss_ms.wrapping_add(r.map_timing_ms);
            stats.cache_evictions = stats.cache_evictions.wrapping_add(r.num_evictions);
            stats.eviction_time_ms = stats.eviction_time_ms.wrapping_add(r.eviction_timing_ms);
        }
        measure.stop();
        let total_ms = measure.as_ms();
        stats.get_connection_lock_ms = stats.get_connection_lock_ms.wrapping_add(lock_timing_ms);
        stats.get_connection_ms = stats.get_connection_ms.wrapping_add(total_ms);
        std::mem::swap(&mut stats, &mut self.stats);
        proof {
            assert(s1 == spec_after_report(s0, stats_report));
            assert(self.stats == spec_logged(
                s1,
                r.cache_hit,
                r.num_evictions,
                r.map_timing_ms,
                r.eviction_timing_ms,
                lock_timing_ms,
                total_ms,
            ));
        }
        CachedConnection {
            tpu_addr: *addr,
            pool_key: r.pool_key,
            connection_index: r.connection_index,
            stats_report,
        }
    }

    /// Hands out a connection for `addr` for blocking use, logging the request
    /// as `get_connection_and_log_stats` does, with no lock wait to add.
    pub fn get_connection(&mut self, addr: &SocketAddress, metrics_enabled: bool) -> (c: CachedConnection)
        ensures
            final(self).wf(),
            final(self).pool_size() == old(self).pool_size(),
            final(self).offset() == old(self).offset(),
            c.tpu_addr == *addr,
            c.pool_key == spec_pool_key(*addr, old(self).offset()),
            connection_outcome(
                old(self).entries(),
                c.pool_key,
                old(self).pool_size(),
                final(self).entries(),
                spec_hit(old(self).entries(), c.pool_key, old(self).pool_size()),
                spec_evictions(old(self).entries(), c.pool_key, old(self).pool_size()),
            ),
            has_key(final(self).entries(), c.pool_key),
            c.connection_index < lookup(final(self).entries(), c.pool_key)->0.count(),
            limiter_stepped(old(self).limiter_last(), final(self).limiter_last()),
            c.stats_report is Some <==> metrics_enabled && report_due(
                old(self).limiter_last(),
                final(self).limiter_last(),
            ),
            c.stats_report is Some ==> c.stats_report == Some(spec_report(old(self).counters())),
            request_logged(
                old(self).counters(),
                c.stats_report,
                old(self).entries(),
                c.pool_key,
                old(self).pool_size(),
                0,
                final(self).counters(),
            ),
    {
        self.get_connection_and_log_stats(addr, 0, metrics_enabled)
    }

    /// Hands out a connection for `addr` for non-blocking use; the cache does
    /// the same as for `get_connection`.
    pub fn get_nonblocking_connection(
        &mut self,
        addr: &SocketAddress,
        metrics_enabled: bool,
    ) -> (c: CachedConnection)
        ensures
            final(self).wf(),
            final(self).pool_size() == old(self).pool_size(),
            final(self).offset() == old(self).offset(),
            c.tpu_addr == *addr,
            c.pool_key == spec_pool_key(*addr, old(self).offset()),
            connection_outcome(
                old(self).entries(),
                c.pool_key,
                old(self).pool_size(),
                final(self).entries(),
                spec_hit(old(self).entries(), c.pool_key, old(self).pool_size()),
                spec_evictions(old(self).entries(), c.pool_key, old(self).pool_size()),
            ),
            has_key(final(self).entries(), c.pool_key),
            c.connection_index < lookup(final(self).entries(), c.pool_key)->0.count(),
            limiter_stepped(old(self).limiter_last(), final(self).limiter_last()),
            c.stats_report is Some <==> metrics_enabled && report_due(
                old(self).limiter_last(),
                final(self).limiter_last(),
            ),
            c.stats_report is Some ==> c.stats_report == Some(spec_report(old(self).counters())),
            request_logged(
                old(self).counters(),
                c.stats_report,
                old(self).entries(),
                c.pool_key,
                old(self).pool_size(),
                0,
                final(self).counters(),
            ),
    {
        self.get_connection_and_log_stats(addr, 0, metrics_enabled)
    }

    /// The cache's counters.
    pub fn stats(&self) -> (r: &ConnectionCacheStats)
        ensures
            *r == self.counters(),
    {
        &self.stats
    }

    /// Adds the counters of one client and one sent batch into the cache's
    /// counters.
    pub fn add_client_stats(&mut self, client_stats: &ClientStats, num_packets: usize, is_success: bool)
        ensures
            final(self).wf(),
            final(self).entries() == old(self).entries(),
            final(self).pool_size() == old(self).pool_size(),
            final(self).offset() == old(self).offset(),
            final(self).counters() == spec_add_client_stats(
                old(self).counters(),
                *client_stats,
                num_packets as u64,
                is_success,
            ),
    {
        proof {
            use_type_invariant(&*self);
        }
        let mut stats = ConnectionCacheStats::default();
        std::mem::swap(&mut stats, &mut self.stats);
        stats.add_client_stats(client_stats, num_packets, is_success);
        std::mem::swap(&mut stats, &mut self.stats);
    }
}

impl Default for ConnectionCache {
    /// An empty cache keeping the default number of connections per address.
    fn default() -> (c: ConnectionCache)
        ensures
            c.wf(),
            c.entries() == Seq::<(CacheKey, UdpPool)>::empty(),
            c.pool_size() == DEFAULT_TPU_CONNECTION_POOL_SIZE,
            c.offset() == 0,
            c.counters() == spec_zero_stats(),
            c.limiter_last() == 0,
    {
        ConnectionCache::new(DEFAULT_TPU_CONNECTION_POOL_SIZE)
    }
}


// ---------------------------------------------------------------------------
// Laws of the cache
// ---------------------------------------------------------------------------

/// After a request for `k`, a pool for `k` is cached; at most one other pool
/// is gone (the evicted one); every other pool that stays is unchanged; and
/// the cache never grows past `MAX_CONNECTIONS` pools.
pub proof fn law_request_keeps_other_pools(
    e: Seq<(CacheKey, UdpPool)>,
    k: CacheKey,
    size: nat,
    e2: Seq<(CacheKey, UdpPool)>,
    hit: bool,
    evictions: u64,
)
    requires
        keys_distinct(e),
        e.len() <= MAX_CONNECTIONS,
        connection_outcome(e, k, size, e2, hit, evictions),
    ensures
        keys_distinct(e2),
        has_key(e2, k),
        e2.len() <= MAX_CONNECTIONS,
        evictions <= 1,
        forall|k2: CacheKey|
            k2 != k && has_key(e2, k2) ==> #[trigger] lookup(e2, k2) == lookup(e, k2),
        evictions == 0 ==> forall|k2: CacheKey| #[trigger] has_key(e, k2) ==> has_key(e2, k2),
{
    if needs_connection(e, k, size) {
        let n = choose|n: int| 0 <= n < MAX_CONNECTIONS && e2 == #[trigger] spec_grown(e, k, n);
        let room = if e.len() >= MAX_CONNECTIONS { swap_remove_entry(e, n) } else { e };
        if e.len() >= MAX_CONNECTIONS {
            lemma_swap_remove(e, n);
        }
        assert(keys_distinct(room));
        let v = match lookup(room, k) {
            Some(p) => spec_pool((p.num_connections + 1) as usize),
            None => spec_pool(1),
        };
        lemma_insert(room, k, v);
        assert(e2 == insert_entry(room, k, v));
        assert(lookup(e2, k) == Some(v));
        assert forall|k2: CacheKey| k2 != k && has_key(e2, k2) implies #[trigger] lookup(e2, k2) == lookup(e, k2) by {
            assert(lookup(e2, k2) == lookup(room, k2));
            if e.len() >= MAX_CONNECTIONS && k2 == e[n].0 {
                assert(!has_key(room, k2));
                assert(lookup(room, k2) is None);
            }
        }
        if evictions == 0 {
            assert forall|k2: CacheKey| #[trigger] has_key(e, k2) implies has_key(e2, k2) by {
                if k2 != k {
                    let q = key_index(e, k2);
                    lemma_lookup_at(e, q);
                    assert(lookup(e2, k2) == lookup(e, k2));
                }
            }
        }
    } else {
        let q = key_index(e, k);
        lemma_lookup_at(e, q);
    }
}

/// While the cache has room for another pool, a request evicts nothing: every
/// cached pool stays, and the cache grows by one pool exactly when the
/// address was not cached yet.
pub proof fn law_no_eviction_below_capacity(
    e: Seq<(CacheKey, UdpPool)>,
    k: CacheKey,
    size: nat,
    e2: Seq<(CacheKey, UdpPool)>,
    hit: bool,
    evictions: u64,
)
    requires
        keys_distinct(e),
        e.len() < MAX_CONNECTIONS,
        connection_outcome(e, k, size, e2, hit, evictions),
    ensures
        evictions == 0,
        forall|k2: CacheKey| #[trigger] has_key(e, k2) ==> has_key(e2, k2),
        e2.len() == if has_key(e, k) { e.len() } else { e.len() + 1 },
{
    law_request_keeps_other_pools(e, k, size, e2, hit, evictions);
    if needs_connection(e, k, size) {
        let n = choose|n: int| 0 <= n < MAX_CONNECTIONS && e2 == #[trigger] spec_grown(e, k, n);
        let v = match lookup(e, k) {
            Some(p) => spec_pool((p.num_connections + 1) as usize),
            None => spec_pool(1),
        };
        lemma_insert(e, k, v);
    }
}

/// A request for a cached address whose pool is full is served from the pool
/// and changes nothing; a request for a cached address whose pool is not full
/// adds exactly one connection to it, unless the cache was full and that very
/// pool was the one evicted.
pub proof fn law_pool_growth(
    e: Seq<(CacheKey, UdpPool)>,
    k: CacheKey,
    size: nat,
    e2: Seq<(CacheKey, UdpPool)>,
    hit: bool,
    evictions: u64,
)
    requires
        keys_distinct(e),
        e.len() <= MAX_CONNECTIONS,
        has_key(e, k),
        size <= usize::MAX,
        connection_outcome(e, k, size, e2, hit, evictions),
    ensures
        lookup(e, k)->0.count() >= size ==> hit && e2 == e,
        lookup(e, k)->0.count() < size ==> !hit && (
            lookup(e2, k)->0.count() == lookup(e, k)->0.count() + 1
            || (evictions == 1 && lookup(e2, k)->0.count() == 1)),
{
    if needs_connection(e, k, size) {
        let n = choose|n: int| 0 <= n < MAX_CONNECTIONS && e2 == #[trigger] spec_grown(e, k, n);
        let room = if e.len() >= MAX_CONNECTIONS { swap_remove_entry(e, n) } else { e };
        if e.len() >= MAX_CONNECTIONS {
            lemma_swap_remove(e, n);
            if k != e[n].0 {
                assert(lookup(room, k) == lookup(e, k));
            }
        }
        let v = match lookup(room, k) {
            Some(p) => spec_pool((p.num_connections + 1) as usize),
            None => spec_pool(1),
        };
        lemma_insert(room, k, v);
    }
}

/// The connections a pool for one address holds after `i` requests for it,
/// with pools of `size`: one more per request until the pool is full.
pub open spec fn pool_after_requests(i: nat, size: nat) -> nat {
    if i <= size {
        i
    } else {
        size
    }
}

/// The cache holding the single pool `p` under `k`.
proof fn lemma_single_entry(k: CacheKey, p: UdpPool)
    ensures
        keys_distinct(seq![(k, p)]),
        has_key(seq![(k, p)], k),
        lookup(seq![(k, p)], k) == Some(p),
        forall|v: UdpPool| insert_entry(seq![(k, p)], k, v) == seq![(k, v)],
{
    let e = seq![(k, p)];
    assert(e[0].0 == k);
    lemma_lookup_at(e, 0);
    assert forall|v: UdpPool| insert_entry(e, k, v) == seq![(k, v)] by {
        assert(e.update(0, (k, v)) =~= seq![(k, v)]);
    }
}

/// The cache holding only a pool of `c` connections for `k`; empty for `c == 0`.
pub open spec fn single_pool_cache(k: CacheKey, c: nat) -> Seq<(CacheKey, UdpPool)> {
    if c == 0 {
        Seq::<(CacheKey, UdpPool)>::empty()
    } else {
        seq![(k, spec_pool(c as usize))]
    }
}

/// One request for `k` on a cache that holds only the pool for `k` with `c`
/// connections, pools being of `size`.
proof fn lemma_single_pool_step(
    k: CacheKey,
    size: nat,
    c: nat,
    e2: Seq<(CacheKey, UdpPool)>,
    hit: bool,
    evictions: u64,
)
    requires
        1 <= size <= usize::MAX,
        c <= size,
        connection_outcome(single_pool_cache(k, c), k, size, e2, hit, evictions),
    ensures
        hit == (c == size),
        evictions == 0,
        e2 == single_pool_cache(k, if c < size { c + 1 } else { c }),
{
    let e = single_pool_cache(k, c);
    if c == 0 {
        assert(!has_key(e, k));
        assert(e.push((k, spec_pool(1))) =~= seq![(k, spec_pool(1))]);
    } else {
        lemma_single_entry(k, spec_pool(c as usize));
    }
    if needs_connection(e, k, size) {
        let n = choose|n: int| 0 <= n < MAX_CONNECTIONS && e2 == #[trigger] spec_grown(e, k, n);
        assert(e2 == add_connection_entry(e, k));
    }
}

/// The invariant behind `law_repeated_requests`, up to request `n`.
proof fn lemma_repeated_prefix(
    k: CacheKey,
    size: nat,
    steps: Seq<Seq<(CacheKey, UdpPool)>>,
    hits: Seq<bool>,
    evictions: Seq<u64>,
    n: int,
)
    requires
        1 <= size <= usize::MAX,
        steps.len() == hits.len() + 1,
        evictions.len() == hits.len(),
        steps[0] == Seq::<(CacheKey, UdpPool)>::empty(),
        forall|i: int|
            0 <= i < hits.len() ==> connection_outcome(
                #[trigger] steps[i],
                k,
                size,
                steps[i + 1],
                hits[i],
                evictions[i],
            ),
        0 <= n <= hits.len(),
    ensures
        forall|i: int| 0 <= i <= n ==> #[trigger] steps[i] == single_pool_cache(k, pool_after_requests(i as nat, size)),
        forall|i: int| 0 <= i < n ==> #[trigger] hits[i] == (i + 1 > size),
        forall|i: int| 0 <= i < n ==> #[trigger] evictions[i] == 0,
    decreases n,
{
    if n > 0 {
        let m = n - 1;
        lemma_repeated_prefix(k, size, steps, hits, evictions, m);
        let c = pool_after_requests(m as nat, size);
        assert(steps[m] == single_pool_cache(k, c));
        assert(connection_outcome(steps[m], k, size, steps[m + 1], hits[m], evictions[m]));
        lemma_single_pool_step(k, size, c, steps[n], hits[m], evictions[m]);
        assert(steps[n] == single_pool_cache(k, pool_after_requests(n as nat, size)));
    }
}

/// Requests for one address, made one after another on an empty cache with
/// pools of `size`: after request `i` the cache holds that address's pool
/// alone, with `min(i, size)` connections; request `i` (counting from one) is
/// served from a full pool exactly when `i > size`, and none evicts a pool.
/// `steps[i]` is the cache after `i` requests, and `hits[i]`, `evictions[i]`
/// are what request `i + 1` reported.
pub proof fn law_repeated_requests(
    k: CacheKey,
    size: nat,
    steps: Seq<Seq<(CacheKey, UdpPool)>>,
    hits: Seq<bool>,
    evictions: Seq<u64>,
)
    requires
        1 <= size <= usize::MAX,
        steps.len() == hits.len() + 1,
        evictions.len() == hits.len(),
        steps[0] == Seq::<(CacheKey, UdpPool)>::empty(),
        forall|i: int|
            0 <= i < hits.len() ==> connection_outcome(
                #[trigger] steps[i],
                k,
                size,
                steps[i + 1],
                hits[i],
                evictions[i],
            ),
    ensures
        forall|i: int|
            1 <= i < steps.len() ==> #[trigger] steps[i] == seq![
                (k, spec_pool(pool_after_requests(i as nat, size) as usize)),
            ],
        forall|i: int| 0 <= i < hits.len() ==> #[trigger] hits[i] == (i + 1 > size),
        forall|i: int| 0 <= i < evictions.len() ==> #[trigger] evictions[i] == 0,
{
    lemma_repeated_prefix(k, size, steps, hits, evictions, hits.len() as int);
    assert forall|i: int| 1 <= i < steps.len() implies #[trigger] steps[i] == seq![
        (k, spec_pool(pool_after_requests(i as nat, size) as usize)),
    ] by {
        assert(steps[i] == single_pool_cache(k, pool_after_requests(i as nat, size)));
    }
}

/// Requests for distinct addresses, made one after another on an empty cache,
/// each miss and evict nothing while there is room: after request `i` the
/// cache holds exactly `i` pools, one for each address asked for so far. With
/// `MAX_CONNECTIONS` addresses the cache ends up full.
/// `steps[i]` is the cache after `i` requests, and request `i + 1` is for
/// `keys[i]` and reported `hits[i]`, `evictions[i]`.
pub proof fn law_distinct_requests_fill(
    keys: Seq<CacheKey>,
    size: nat,
    steps: Seq<Seq<(CacheKey, UdpPool)>>,
    hits: Seq<bool>,
    evictions: Seq<u64>,
)
    requires
        keys.len() <= MAX_CONNECTIONS,
        keys.no_duplicates(),
        steps.len() == keys.len() + 1,
        hits.len() == keys.len(),
        evictions.len() == keys.len(),
        steps[0] == Seq::<(CacheKey, UdpPool)>::empty(),
        forall|i: int|
            0 <= i < keys.len() ==> connection_outcome(
                #[trigger] steps[i],
                keys[i],
                size,
                steps[i + 1],
                hits[i],
                evictions[i],
            ),
    ensures
        forall|i: int| 0 <= i < steps.len() ==> (#[trigger] steps[i]).len() == i,
        forall|i: int, j: int| 0 <= j < i < steps.len() ==> has_key(#[trigger] steps[i], #[trigger] keys[j]),
        forall|i: int| 0 <= i < hits.len() ==> !(#[trigger] hits[i]),
        forall|i: int| 0 <= i < evictions.len() ==> #[trigger] evictions[i] == 0,
        keys.len() == MAX_CONNECTIONS ==> steps[keys.len() as int].len() == MAX_CONNECTIONS,
{
    lemma_distinct_prefix(keys, size, steps, hits, evictions, keys.len() as int);
}

/// The invariant behind `law_distinct_requests_fill`, up to request `n`:
/// the cache after `i <= n` requests has distinct keys, exactly the first `i`
/// addresses, and the first `n` requests missed without evicting.
proof fn lemma_distinct_prefix(
    keys: Seq<CacheKey>,
    size: nat,
    steps: Seq<Seq<(CacheKey, UdpPool)>>,
    hits: Seq<bool>,
    evictions: Seq<u64>,
    n: int,
)
    requires
        keys.len() <= MAX_CONNECTIONS,
        keys.no_duplicates(),
        steps.len() == keys.len() + 1,
        hits.len() == keys.len(),
        evictions.len() == keys.len(),
        steps[0] == Seq::<(CacheKey, UdpPool)>::empty(),
        forall|i: int|
            0 <= i < keys.len() ==> connection_outcome(
                #[trigger] steps[i],
                keys[i],
                size,
                steps[i + 1],
                hits[i],
                evictions[i],
            ),
        0 <= n <= keys.len(),
    ensures
        forall|i: int| 0 <= i <= n ==> (#[trigger] steps[i]).len() == i && keys_distinct(steps[i]),
        forall|i: int, j: int| 0 <= j < i <= n ==> has_key(#[trigger] steps[i], #[trigger] keys[j]),
        forall|i: int, k2: CacheKey|
            0 <= i <= n && #[trigger] has_key(#[trigger] steps[i], k2) ==> exists|j: int| 0 <= j < i && keys[j] == k2,
        forall|i: int| 0 <= i < n ==> !(#[trigger] hits[i]),
        forall|i: int| 0 <= i < n ==> #[trigger] evictions[i] == 0,
    decreases n,
{
    if n == 0 {
        assert forall|k2: CacheKey| !has_key(steps[0], k2) by {}
    } else {
        let m = n - 1;
        lemma_distinct_prefix(keys, size, steps, hits, evictions, m);
        let e = steps[m];
        let e2 = steps[n];
        let k = keys[m];
        assert(connection_outcome(e, k, size, e2, hits[m], evictions[m]));
        assert(!has_key(e, k)) by {
            if has_key(e, k) {
                let j = choose|j: int| 0 <= j < m && keys[j] == k;
                assert(keys[j] == keys[m]);
            }
        }
        assert(lookup(e, k) is None);
        law_request_keeps_other_pools(e, k, size, e2, hits[m], evictions[m]);
        law_no_eviction_below_capacity(e, k, size, e2, hits[m], evictions[m]);
        assert forall|k2: CacheKey| #[trigger] has_key(e2, k2) implies exists|j: int| 0 <= j < n && keys[j] == k2 by {
            if k2 == k {
                assert(keys[m] == k2);
            } else {
                assert(lookup(e2, k2) == lookup(e, k2));
                assert(has_key(e, k2));
                let j = choose|j: int| 0 <= j < m && keys[j] == k2;
                assert(keys[j] == k2);
            }
        }
        assert forall|j: int| 0 <= j < n implies has_key(e2, #[trigger] keys[j]) by {
            if j < m {
                assert(has_key(e, keys[j]));
            }
        }
    }
}

/// How many pools a request evicts: none on a hit or while the cache has
/// room, else enough to bring the cache back under `MAX_CONNECTIONS` before
/// the new pool goes in. Afterwards the address has a pool of at least one
/// connection and the cache holds at most `MAX_CONNECTIONS` pools.
pub proof fn law_eviction_count(
    e: Seq<(CacheKey, UdpPool)>,
    k: CacheKey,
    size: nat,
    e2: Seq<(CacheKey, UdpPool)>,
    hit: bool,
    evictions: u64,
)
    requires
        keys_distinct(e),
        e.len() <= MAX_CONNECTIONS,
        1 <= size <= usize::MAX,
        counts_within(e, size),
        connection_outcome(e, k, size, e2, hit, evictions),
    ensures
        evictions == (if hit || e.len() < MAX_CONNECTIONS { 0 } else { e.len() - MAX_CONNECTIONS + 1 }),
        e2.len() <= MAX_CONNECTIONS,
        has_key(e2, k),
        lookup(e2, k)->0.count() >= 1,
{
    law_request_keeps_other_pools(e, k, size, e2, hit, evictions);
    if needs_connection(e, k, size) {
        let n = choose|n: int| 0 <= n < MAX_CONNECTIONS && e2 == #[trigger] spec_grown(e, k, n);
        let room = if e.len() >= MAX_CONNECTIONS { swap_remove_entry(e, n) } else { e };
        if e.len() >= MAX_CONNECTIONS {
            lemma_swap_remove(e, n);
        }
        let v = match lookup(room, k) {
            Some(p) => spec_pool((p.num_connections + 1) as usize),
            None => spec_pool(1),
        };
        if lookup(room, k) is Some {
            let q = key_index(room, k);
            lemma_lookup_at(room, q);
            let j = choose|j: int| 0 <= j < e.len() && room[q] == e[j];
            assert(e[j].1.count() <= size);
        }
        lemma_insert(room, k, v);
    } else {
        let q = key_index(e, k);
        lemma_lookup_at(e, q);
        assert(e[q].1.count() >= 1);
    }
}

/// Reports are at least the submission interval apart: once a request has
/// moved the limiter to `last`, a later request whose clock reading `now` is
/// within the interval of `last` leaves the limiter where it is and finds no
/// report due.
pub proof fn law_reports_spaced(last: u64, now: u64)
    requires
        now <= last + CONNECTION_STAT_SUBMISSION_INTERVAL,
    ensures
        spec_limiter_after(last, now, CONNECTION_STAT_SUBMISSION_INTERVAL) == last,
        !report_due(last, spec_limiter_after(last, now, CONNECTION_STAT_SUBMISSION_INTERVAL)),
{
}

/// A report taken right after another one reports zero for every counter.
pub proof fn law_report_after_report_is_zero(s: ConnectionCacheStats)
    ensures
        spec_report(spec_reset(s)) == spec_report(spec_zero_stats()),
        spec_reset(spec_reset(s)) == spec_reset(s),
{
}

/// Between reports, every batch counted is either a success or a failure:
/// when the batch count equals successes plus failures and no counter is about
/// to wrap, adding a client's batch keeps it so.
pub proof fn law_batches_balanced(s: ConnectionCacheStats, c: ClientStats, num_packets: u64, is_success: bool)
    requires
        s.total_batches == s.batch_success + s.batch_failure,
        s.total_batches < u64::MAX,
    ensures
        spec_add_client_stats(s, c, num_packets, is_success).total_batches == spec_add_client_stats(
            s,
            c,
            num_packets,
            is_success,
        ).batch_success + spec_add_client_stats(s, c, num_packets, is_success).batch_failure,
        spec_add_client_stats(s, c, num_packets, is_success).total_batches == s.total_batches + 1,
{
}

/// Pool keys tell addresses apart: two addresses share a key only when they
/// have the same IP address and the same shifted port. The key holds the
/// address family and every bit of the IP address, and the shifted port.
pub proof fn law_pool_keys_distinguish_addresses(a: SocketAddress, b: SocketAddress, offset: u16)
    ensures
        spec_pool_key(a, offset) == spec_pool_key(b, offset) ==> a.ip == b.ip && spec_shifted_port(a.port, offset)
            == spec_shifted_port(b.port, offset),
        a.ip matches IpAddress::V4(x) ==> spec_pool_key(a, offset).0 == 4 && spec_pool_key(a, offset).1 == x,
        a.ip matches IpAddress::V6(x) ==> spec_pool_key(a, offset).0 == 6 && spec_pool_key(a, offset).1 == x,
        spec_pool_key(a, offset).2 == spec_shifted_port(a.port, offset),
{
}

/// Each reported value is the counter of the same name; the client totals
/// are reported from the summed client counters.
pub proof fn law_report_fields(s: ConnectionCacheStats)
    ensures
        spec_report(s).cache_hits == s.cache_hits,
        spec_report(s).cache_misses == s.cache_misses,
        spec_report(s).cache_evictions == s.cache_evictions,
        spec_report(s).eviction_time_ms == s.eviction_time_ms,
        spec_report(s).get_connection_ms == s.get_connection_ms,
        spec_report(s).get_connection_lock_ms == s.get_connection_lock_ms,
        spec_report(s).get_connection_hit_ms == s.get_connection_hit_ms,
        spec_report(s).get_connection_miss_ms == s.get_connection_miss_ms,
        spec_report(s).make_connection_ms == s.total_client_stats.make_connection_ms,
        spec_report(s).total_connections == s.total_client_stats.total_connections,
        spec_report(s).connection_reuse == s.total_client_stats.connection_reuse,
        spec_report(s).connection_errors == s.total_client_stats.connection_errors,
        spec_report(s).zero_rtt_accepts == s.total_client_stats.zero_rtt_accepts,
        spec_report(s).zero_rtt_rejects == s.total_client_stats.zero_rtt_rejects,
        spec_report(s).congestion_events == s.total_client_stats.congestion_events,
        spec_report(s).tx_streams_blocked_uni == s.total_client_stats.tx_streams_blocked_uni,
        spec_report(s).tx_data_blocked == s.total_client_stats.tx_data_blocked,
        spec_report(s).tx_acks == s.total_client_stats.tx_acks,
        spec_report(s).num_packets == s.sent_packets,
        spec_report(s).total_batches == s.total_batches,
        spec_report(s).batch_failure == s.batch_failure,
{
}

/// Every client counter is added into the total of the same name (wrapping);
/// the packets are added to the sent packets, one batch is counted, and it
/// counts as a success or a failure as given. Nothing else changes.
pub proof fn law_add_client_stats_fields(s: ConnectionCacheStats, c: ClientStats, num_packets: u64, is_success: bool)
    ensures
        ({
            let t = spec_add_client_stats(s, c, num_packets, is_success);
            &&& t.total_client_stats.total_connections == wrapping_add(
                s.total_client_stats.total_connections,
                c.total_connections,
            )
            &&& t.total_client_stats.connection_reuse == wrapping_add(
                s.total_client_stats.connection_reuse,
                c.connection_reuse,
            )
            &&& t.total_client_stats.connection_errors == wrapping_add(
                s.total_client_stats.connection_errors,
                c.connection_errors,
            )
            &&& t.total_client_stats.zero_rtt_accepts == wrapping_add(
                s.total_client_stats.zero_rtt_accepts,
                c.zero_rtt_accepts,
            )
            &&& t.total_client_stats.zero_rtt_rejects == wrapping_add(
                s.total_client_stats.zero_rtt_rejects,
                c.zero_rtt_rejects,
            )
            &&& t.total_client_stats.make_connection_ms == wrapping_add(
                s.total_client_stats.make_connection_ms,
                c.make_connection_ms,
            )
            &&& t.total_client_stats.congestion_events == s.total_client_stats.congestion_events
            &&& t.total_client_stats.tx_streams_blocked_uni == s.total_client_stats.tx_streams_blocked_uni
            &&& t.total_client_stats.tx_data_blocked == s.total_client_stats.tx_data_blocked
            &&& t.total_client_stats.tx_acks == s.total_client_stats.tx_acks
            &&& t.sent_packets == wrapping_add(s.sent_packets, num_packets)
            &&& t.total_batches == wrapping_add(s.total_batches, 1)
            &&& t.batch_success == if is_success { wrapping_add(s.batch_success, 1) } else { s.batch_success }
            &&& t.batch_failure == if is_success { s.batch_failure } else { wrapping_add(s.batch_failure, 1) }
            &&& t.cache_hits == s.cache_hits
            &&& t.cache_misses == s.cache_misses
            &&& t.cache_evictions == s.cache_evictions
            &&& t.eviction_time_ms == s.eviction_time_ms
            &&& t.get_connection_ms == s.get_connection_ms
            &&& t.get_connection_lock_ms == s.get_connection_lock_ms
            &&& t.get_connection_hit_ms == s.get_connection_hit_ms
            &&& t.get_connection_miss_ms == s.get_connection_miss_ms
        }),
{
}

/// A report sets every reported counter back to zero and keeps the count of
/// successful batches, which is not reported.
pub proof fn law_reset_fields(s: ConnectionCacheStats)
    ensures
        ({
            let t = spec_reset(s);
            &&& t.cache_hits == 0 && t.cache_misses == 0 && t.cache_evictions == 0 && t.eviction_time_ms == 0
            &&& t.sent_packets == 0 && t.total_batches == 0 && t.batch_failure == 0
            &&& t.batch_success == s.batch_success
            &&& t.get_connection_ms == 0 && t.get_connection_lock_ms == 0
            &&& t.get_connection_hit_ms == 0 && t.get_connection_miss_ms == 0
            &&& t.total_client_stats.total_connections == 0 && t.total_client_stats.connection_reuse == 0
            &&& t.total_client_stats.connection_errors == 0 && t.total_client_stats.zero_rtt_accepts == 0
            &&& t.total_client_stats.zero_rtt_rejects == 0 && t.total_client_stats.make_connection_ms == 0
            &&& t.total_client_stats.congestion_events == 0 && t.total_client_stats.tx_streams_blocked_uni == 0
            &&& t.total_client_stats.tx_data_blocked == 0 && t.total_client_stats.tx_acks == 0
        }),
{
}

/// Logging a request counts one hit, with its map time, or one miss, with
/// its map time, its evictions and their time; the lock wait and the total
/// time are added either way, and no other counter changes.
pub proof fn law_logged_fields(
    s: ConnectionCacheStats,
    hit: bool,
    evictions: u64,
    map_ms: u64,
    eviction_ms: u64,
    lock_ms: u64,
    total_ms: u64,
)
    ensures
        ({
            let t = spec_logged(s, hit, evictions, map_ms, eviction_ms, lock_ms, total_ms);
            &&& hit ==> t.cache_hits == wrapping_add(s.cache_hits, 1) && t.cache_misses == s.cache_misses
                && t.get_connection_hit_ms == wrapping_add(s.get_connection_hit_ms, map_ms)
                && t.get_connection_miss_ms == s.get_connection_miss_ms && t.cache_evictions == s.cache_evictions
                && t.eviction_time_ms == s.eviction_time_ms
            &&& !hit ==> t.cache_misses == wrapping_add(s.cache_misses, 1) && t.cache_hits == s.cache_hits
                && t.get_connection_miss_ms == wrapping_add(s.get_connection_miss_ms, map_ms)
                && t.get_connection_hit_ms == s.get_connection_hit_ms && t.cache_evictions == wrapping_add(
                s.cache_evictions,
                evictions,
            ) && t.eviction_time_ms == wrapping_add(s.eviction_time_ms, eviction_ms)
            &&& t.get_connection_lock_ms == wrapping_add(s.get_connection_lock_ms, lock_ms)
            &&& t.get_connection_ms == wrapping_add(s.get_connection_ms, total_ms)
            &&& t.sent_packets == s.sent_packets && t.total_batches == s.total_batches
            &&& t.batch_success == s.batch_success && t.batch_failure == s.batch_failure
            &&& t.total_client_stats == s.total_client_stats
        }),
{
}

/// A pool type that does not shift ports keeps every port; a shift that would
/// leave the range of ports keeps the port too.
pub proof fn law_port_shift(port: u16, offset: u16)
    ensures
        spec_shifted_port(port, 0) == port,
        port + offset > u16::MAX ==> spec_shifted_port(port, offset) == port,
        port + offset <= u16::MAX ==> spec_shifted_port(port, offset) == port + offset,
{
}

} // verus!
