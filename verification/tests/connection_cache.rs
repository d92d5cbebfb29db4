use tpu_toolkit::connection_cache::{
    pool_key, shifted_port, ClientStats, ConnectionCache, ConnectionCacheStats, IpAddress,
    SocketAddress, UdpPool, DEFAULT_TPU_CONNECTION_POOL_SIZE, MAX_CONNECTIONS,
};

use rand::{Rng, SeedableRng};
use rand_chacha::ChaChaRng;

const QUIC_PORT_OFFSET: u16 = 6;

fn addr_v4(a: u8, b: u8, c: u8, d: u8, port: u16) -> SocketAddress {
    let ip = u32::from_be_bytes([a, b, c, d]);
    SocketAddress { ip: IpAddress::V4(ip), port }
}

fn nth_addr(i: usize) -> SocketAddress {
    addr_v4(10, (i / 250 + 1) as u8, (i % 250 + 1) as u8, 7, 80)
}

fn get_addr(rng: &mut ChaChaRng) -> SocketAddress {
    let a: i32 = rng.gen_range(1, 255);
    let b: i32 = rng.gen_range(1, 255);
    let c: i32 = rng.gen_range(1, 255);
    let d: i32 = rng.gen_range(1, 255);
    addr_v4(a as u8, b as u8, c as u8, d as u8, 80)
}

fn ip_of_key(key: (u8, u128, u16)) -> IpAddress {
    if key.0 == 4 {
        IpAddress::V4(key.1 as u32)
    } else {
        IpAddress::V6(key.1)
    }
}

#[test]
fn test_connection_cache() {
    // The same pseudorandom addresses on every run and platform.
    let mut rng = ChaChaRng::seed_from_u64(42);
    let mut cache = ConnectionCache::with_port_offset(DEFAULT_TPU_CONNECTION_POOL_SIZE, QUIC_PORT_OFFSET);
    let port_offset = QUIC_PORT_OFFSET;
    let addrs: Vec<SocketAddress> = (0..MAX_CONNECTIONS)
        .map(|_| {
            let addr = get_addr(&mut rng);
            let conn = cache.get_connection(&addr, true);
            assert!(conn.tpu_addr.ip == addr.ip);
            addr
        })
        .collect();
    assert!(cache.num_pools() == MAX_CONNECTIONS);
    for a in &addrs {
        let port = a.port.checked_add(port_offset).unwrap_or(a.port);
        let key = pool_key(a, port_offset);
        assert_eq!(key.2, port);
        let pool = cache.get_pool(a).expect("Address not found");
        assert!(pool.num_connections() >= 1);
        assert!(ip_of_key(key) == a.ip);
    }

    let addr = get_addr(&mut rng);
    cache.get_connection(&addr, true);
    let port = addr.port.checked_add(port_offset).unwrap_or(addr.port);
    assert_eq!(pool_key(&addr, port_offset).2, port);
    assert!(cache.num_pools() == MAX_CONNECTIONS);
    let _pool = cache.get_pool(&addr).expect("Address not found");
}

#[test]
fn test_overflow_address() {
    let port = u16::MAX - QUIC_PORT_OFFSET + 1;
    assert!(port.checked_add(QUIC_PORT_OFFSET).is_none());
    let addr = addr_v4(127, 0, 0, 1, port);
    let mut cache = ConnectionCache::with_port_offset(1, QUIC_PORT_OFFSET);

    let conn = cache.get_connection(&addr, true);
    assert!(conn.tpu_addr.port != 0);
    assert!(conn.tpu_addr.port == port);
    assert_eq!(conn.pool_key.2, port);
}

#[test]
fn shifted_port_adds_offset_when_it_fits() {
    assert_eq!(shifted_port(8000, 6), 8006);
    assert_eq!(shifted_port(u16::MAX, 1), u16::MAX);
    assert_eq!(shifted_port(u16::MAX - 6, 6), u16::MAX);
    assert_eq!(shifted_port(80, 0), 80);
}

#[test]
fn pool_key_distinguishes_families() {
    let v4 = SocketAddress { ip: IpAddress::V4(1), port: 9 };
    let v6 = SocketAddress { ip: IpAddress::V6(1), port: 9 };
    assert_eq!(pool_key(&v4, 0), (4, 1, 9));
    assert_eq!(pool_key(&v6, 0), (6, 1, 9));
    assert_ne!(pool_key(&v4, 0), pool_key(&v6, 0));
}

#[test]
fn pool_grows_up_to_pool_size_then_hits() {
    let mut cache = ConnectionCache::new(3);
    let addr = addr_v4(1, 2, 3, 4, 8001);
    for expected in 1..=3usize {
        let conn = cache.get_connection(&addr, true);
        assert!(conn.connection_index < expected);
        assert_eq!(cache.get_pool(&addr).unwrap().num_connections(), expected);
    }
    assert_eq!(cache.stats().cache_misses, 3);
    assert_eq!(cache.stats().cache_hits, 0);
    for _ in 0..5 {
        let conn = cache.get_connection(&addr, true);
        assert!(conn.connection_index < 3);
        assert_eq!(cache.get_pool(&addr).unwrap().num_connections(), 3);
    }
    assert_eq!(cache.stats().cache_hits, 5);
    assert_eq!(cache.num_pools(), 1);
}

#[test]
fn new_cache_keeps_at_least_one_connection() {
    assert_eq!(ConnectionCache::new(0).connection_pool_size(), 1);
    assert_eq!(ConnectionCache::new(7).connection_pool_size(), 7);
    assert_eq!(ConnectionCache::default().connection_pool_size(), DEFAULT_TPU_CONNECTION_POOL_SIZE);
}

#[test]
fn no_eviction_below_capacity() {
    let mut cache = ConnectionCache::new(2);
    for i in 0..100 {
        cache.get_connection(&nth_addr(i), true);
    }
    assert_eq!(cache.num_pools(), 100);
    assert_eq!(cache.stats().cache_evictions, 0);
    for i in 0..100 {
        assert!(cache.get_pool(&nth_addr(i)).is_some());
    }
}

#[test]
fn nonblocking_connection_uses_same_pool() {
    let mut cache = ConnectionCache::new(1);
    let addr = addr_v4(8, 8, 8, 8, 53);
    let a = cache.get_connection(&addr, true);
    let b = cache.get_nonblocking_connection(&addr, true);
    assert_eq!(a.pool_key, b.pool_key);
    assert_eq!(b.connection_index, 0);
    assert_eq!(cache.stats().cache_hits, 1);
}

#[test]
fn udp_pool_counts_connections() {
    let mut pool = UdpPool::new_with_connection();
    assert_eq!(pool.num_connections(), 1);
    assert!(pool.need_new_connection(2));
    pool.add_connection();
    assert_eq!(pool.num_connections(), 2);
    assert!(!pool.need_new_connection(2));
    for _ in 0..20 {
        assert!(pool.borrow_connection() < 2);
    }
}

fn sample_client_stats() -> ClientStats {
    ClientStats {
        total_connections: 3,
        connection_reuse: 5,
        connection_errors: 1,
        zero_rtt_accepts: 2,
        zero_rtt_rejects: 4,
        make_connection_ms: 11,
        congestion_events: 0,
        tx_streams_blocked_uni: 0,
        tx_data_blocked: 0,
        tx_acks: 0,
    }
}

#[test]
fn add_client_stats_accumulates() {
    let mut stats = ConnectionCacheStats::default();
    stats.add_client_stats(&sample_client_stats(), 10, true);
    stats.add_client_stats(&sample_client_stats(), 7, false);
    assert_eq!(stats.sent_packets, 17);
    assert_eq!(stats.total_batches, 2);
    assert_eq!(stats.batch_success, 1);
    assert_eq!(stats.batch_failure, 1);
    assert_eq!(stats.total_client_stats.total_connections, 6);
    assert_eq!(stats.total_client_stats.connection_reuse, 10);
    assert_eq!(stats.total_client_stats.make_connection_ms, 22);
}

#[test]
fn add_client_stats_wraps() {
    let mut stats = ConnectionCacheStats::default();
    stats.sent_packets = u64::MAX;
    stats.add_client_stats(&ClientStats::default(), 2, true);
    assert_eq!(stats.sent_packets, 1);
}

#[test]
fn report_takes_and_resets_counters() {
    let mut stats = ConnectionCacheStats::default();
    stats.add_client_stats(&sample_client_stats(), 10, true);
    stats.add_client_stats(&sample_client_stats(), 5, false);
    stats.cache_hits = 9;
    let report = stats.report(true).unwrap();
    assert_eq!(report.cache_hits, 9);
    assert_eq!(report.num_packets, 15);
    assert_eq!(report.total_batches, 2);
    assert_eq!(report.batch_failure, 1);
    assert_eq!(report.total_connections, 6);
    assert_eq!(stats.cache_hits, 0);
    assert_eq!(stats.total_batches, 0);
    assert_eq!(stats.batch_success, 1);
    let second = stats.report(true).unwrap();
    assert_eq!(second.cache_hits, 0);
    assert_eq!(second.num_packets, 0);
    assert_eq!(second.total_connections, 0);
}

#[test]
fn cache_add_client_stats_keeps_pools() {
    let mut cache = ConnectionCache::new(1);
    let addr = addr_v4(9, 9, 9, 9, 9);
    cache.get_connection(&addr, true);
    cache.add_client_stats(&sample_client_stats(), 4, true);
    assert_eq!(cache.stats().sent_packets, 4);
    assert_eq!(cache.num_pools(), 1);
}

#[test]
fn growing_a_pool_in_a_full_cache_evicts_one_pool() {
    let mut cache = ConnectionCache::new(2);
    for i in 0..MAX_CONNECTIONS {
        cache.get_connection(&nth_addr(i), true);
    }
    assert_eq!(cache.stats().cache_evictions, 0);
    let conn = cache.get_connection(&nth_addr(0), true);
    assert!(conn.connection_index < 2);
    assert_eq!(cache.stats().cache_evictions, 1);
    let pool = cache.get_pool(&nth_addr(0)).expect("Address not found");
    if cache.num_pools() == MAX_CONNECTIONS - 1 {
        // another pool was evicted, and this one grew
        assert_eq!(pool.num_connections(), 2);
    } else {
        // this very pool was evicted and made anew
        assert_eq!(cache.num_pools(), MAX_CONNECTIONS);
        assert_eq!(pool.num_connections(), 1);
    }
}

#[test]
fn report_with_metrics_disabled_keeps_counters() {
    let mut stats = ConnectionCacheStats::default();
    stats.add_client_stats(&sample_client_stats(), 10, true);
    stats.cache_hits = 9;
    let before = stats;
    assert!(stats.report(false).is_none());
    assert_eq!(stats, before);
    assert_eq!(stats.cache_hits, 9);
    assert_eq!(stats.sent_packets, 10);
    let report = stats.report(true).unwrap();
    assert_eq!(report.cache_hits, 9);
    assert_eq!(stats.cache_hits, 0);
}

#[test]
fn first_requests_take_no_report() {
    let mut cache = ConnectionCache::new(2);
    let addr = addr_v4(4, 3, 2, 1, 1000);
    let first = cache.get_connection(&addr, true);
    assert!(first.stats_report.is_none());
    let second = cache.get_connection(&addr, true);
    assert!(second.stats_report.is_none());
    let third = cache.get_connection(&addr, false);
    assert!(third.stats_report.is_none());
    assert_eq!(cache.stats().cache_misses, 2);
    assert_eq!(cache.stats().cache_hits, 1);
}

#[test]
fn distinct_requests_fill_the_cache_without_hits() {
    let mut cache = ConnectionCache::new(3);
    for i in 0..MAX_CONNECTIONS {
        cache.get_connection(&nth_addr(i), false);
        assert_eq!(cache.num_pools(), i + 1);
    }
    assert_eq!(cache.stats().cache_misses, MAX_CONNECTIONS as u64);
    assert_eq!(cache.stats().cache_hits, 0);
    assert_eq!(cache.stats().cache_evictions, 0);
}
