use nexus_network::network::connection_pool::{client_settings, get_pool_stats, ConnectionPool, PoolConfig, PoolError};

const SEC: u64 = 1_000_000_000;

#[test]
fn default_config() {
    let c = PoolConfig::default();
    assert_eq!(c.max_connections_per_host, 10);
    assert_eq!(c.connection_idle_timeout, 300 * SEC);
    assert_eq!(c.max_idle_connections, 50);
    assert!(c.enable_http2);
}

#[test]
fn invalid_url_is_refused() {
    let mut pool = ConnectionPool::new(PoolConfig::default());
    let r = pool.get_client("not a url", 0);
    assert!(matches!(r, Err(PoolError::InvalidUrl(_))));
    let s = pool.get_stats();
    assert_eq!(s.requests_served, 0);
    assert_eq!(s.total_connections, 0);
}

#[test]
fn create_then_reuse_after_return() {
    let mut pool = ConnectionPool::new(PoolConfig::default());
    assert!(pool.get_client("https://orchestrator.example.com/v3/tasks", 0).is_ok());
    let s = pool.get_stats();
    assert_eq!(s.connections_created, 1);
    assert_eq!(s.total_connections, 1);
    assert_eq!(s.active_connections, 1);
    // The only connection is in use, so a second request creates another one.
    assert!(pool.get_client("https://orchestrator.example.com/other", SEC).is_ok());
    assert_eq!(pool.get_stats().connections_created, 2);
    // Giving one back lets the next request reuse it.
    pool.return_client("https://orchestrator.example.com/", 2 * SEC);
    let s = pool.get_stats();
    assert_eq!(s.active_connections, 1);
    assert_eq!(s.idle_connections, 1);
    assert!(pool.get_client("https://orchestrator.example.com/x", 3 * SEC).is_ok());
    let s = get_pool_stats(&pool);
    assert_eq!(s.connections_reused, 1);
    assert_eq!(s.connections_created, 2);
    assert_eq!(s.requests_served, 3);
    assert_eq!(s.idle_connections, 0);
    assert_eq!(s.connections_created + s.connections_reused, s.requests_served);
}

#[test]
fn expired_connections_are_cleaned_up() {
    let config = PoolConfig { connection_idle_timeout: 10 * SEC, ..PoolConfig::default() };
    let mut pool = ConnectionPool::new(config);
    assert!(pool.get_client("http://a.example", 0).is_ok());
    assert!(pool.get_client("http://b.example", 0).is_ok());
    pool.return_client("http://a.example", SEC);
    pool.return_client("http://b.example", SEC);
    assert_eq!(pool.remove_expired_connections(5 * SEC), 0);
    pool.cleanup_expired(20 * SEC);
    let s = pool.get_stats();
    assert_eq!(s.total_connections, 0);
    assert_eq!(s.idle_connections, 0);
    // A new request after the cleanup has to create a connection again.
    assert!(pool.get_client("http://a.example/path", 21 * SEC).is_ok());
    assert_eq!(pool.get_stats().connections_created, 3);
}

#[test]
fn hosts_without_explicit_host_share_localhost_key() {
    let mut pool = ConnectionPool::new(PoolConfig::default());
    assert!(pool.get_client("unix:/run/socket", 0).is_ok());
    pool.return_client("unix:/other", SEC);
    assert_eq!(pool.get_stats().idle_connections, 1);
}

#[test]
fn client_settings_follow_the_pool_config() {
    let config = PoolConfig { max_connections_per_host: 3, connection_idle_timeout: 7 * SEC, max_idle_connections: 9, enable_http2: true };
    let s = client_settings(&config);
    assert_eq!(s.request_timeout, 60 * SEC);
    assert_eq!(s.pool_idle_timeout, 7 * SEC);
    assert_eq!(s.max_idle_per_host, 9);
    assert_eq!(s.tcp_keepalive, 60 * SEC);
    assert!(s.connection_verbose);
    assert_eq!(s.user_agent, "nexus-cli/1.0");
}
