//! Pool of HTTP clients, kept per host and handed out for reuse.
//!
//! Times are nanoseconds on the caller's clock; a connection has expired when
//! more than the idle timeout has passed since its last use.
use vstd::prelude::*;
use vstd::string::StringExecFns;

verus! {

/// Declares `url::ParseError` so that it can be carried in an error.
#[verifier::external_type_specification]
#[verifier::external_body]
pub struct ExUrlParseError(url::ParseError);

/// Declares `reqwest::Error` so that it can be carried in an error.
#[verifier::external_type_specification]
#[verifier::external_body]
pub struct ExReqwestError(reqwest::Error);

/// Declares `reqwest::Client`, the HTTP client that the pool hands out.
#[verifier::external_type_specification]
#[verifier::external_body]
pub struct ExReqwestClient(reqwest::Client);

/// The scheme and the host (if any) of `url` as `url::Url::parse`,
/// `Url::scheme` and `Url::host_str` give them, or `None` when `url` does not
/// parse as an absolute URL.
pub uninterp spec fn url_scheme_and_host(url: Seq<char>) -> Option<(Seq<char>, Option<Seq<char>>)>;

/// Parses `url` with `url::Url::parse` and returns its scheme and host.
/// The contract claims that parsing depends on the text alone, so that the
/// same text always gives the same parts or the same failure.
#[verifier::external_body]
fn parse_scheme_and_host(url: &str) -> (r: Result<(String, Option<String>), url::ParseError>)
    ensures
        match r {
            Ok((scheme, host)) => url_scheme_and_host(url@) == Some((scheme@, match host {
                Some(h) => Some(h@),
                None => None::<Seq<char>>,
            })),
            Err(_) => url_scheme_and_host(url@) is None,
        },
{
    match url::Url::parse(url) {
        Ok(parsed) => Ok((parsed.scheme().to_string(), parsed.host_str().map(|h| h.to_string()))),
        Err(e) => Err(e),
    }
}

/// Builds an HTTP client with `reqwest::ClientBuilder` from `settings`: the
/// request timeout, idle timeout, idle-connection limit per host, TCP
/// keepalive, connection logging and user agent that they give.
/// Nothing is claimed of the result: whether building succeeds rests on the
/// machine's TLS and resolver setup.
#[verifier::external_body]
fn build_client(settings: &ClientSettings) -> (r: Result<reqwest::Client, reqwest::Error>) {
    reqwest::Client::builder()
        .timeout(std::time::Duration::from_nanos(settings.request_timeout))
        .pool_idle_timeout(std::time::Duration::from_nanos(settings.pool_idle_timeout))
        .pool_max_idle_per_host(settings.max_idle_per_host)
        .tcp_keepalive(std::time::Duration::from_nanos(settings.tcp_keepalive))
        .connection_verbose(settings.connection_verbose)
        .user_agent(settings.user_agent)
        .build()
}

/// How the pool builds a new HTTP client (times in nanoseconds).
pub struct ClientSettings {
    pub request_timeout: u64,
    pub pool_idle_timeout: u64,
    pub max_idle_per_host: usize,
    pub tcp_keepalive: u64,
    pub connection_verbose: bool,
    pub user_agent: &'static str,
}

/// The settings of the clients of a pool configured with `config`: a 60 s
/// request timeout, the pool's idle timeout and idle-connection limit, 60 s
/// TCP keepalive, verbose connection logging and the `nexus-cli/1.0` agent.
pub open spec fn spec_client_settings_for(s: ClientSettings, config: PoolConfig) -> bool {
    &&& s.request_timeout == 60000000000
    &&& s.pool_idle_timeout == config.connection_idle_timeout
    &&& s.max_idle_per_host == config.max_idle_connections
    &&& s.tcp_keepalive == 60000000000
    &&& s.connection_verbose
    &&& s.user_agent@ == "nexus-cli/1.0"@
}

/// The settings with which a pool configured with `config` builds clients.
pub fn client_settings(config: &PoolConfig) -> (r: ClientSettings)
    ensures
        spec_client_settings_for(r, *config),
{
    ClientSettings {
        request_timeout: 60000000000,
        pool_idle_timeout: config.connection_idle_timeout,
        max_idle_per_host: config.max_idle_connections,
        tcp_keepalive: 60000000000,
        connection_verbose: true,
        user_agent: "nexus-cli/1.0",
    }
}

/// `reqwest::Client::clone` copies the handle to the same shared client, so
/// the copy is the same client.
pub assume_specification[<reqwest::Client as Clone>::clone](c: &reqwest::Client) -> (r: reqwest::Client)
    ensures
        r == *c,
;

/// Configuration of the pool (the idle timeout in nanoseconds).
#[derive(Debug)]
pub struct PoolConfig {
    pub max_connections_per_host: usize,
    pub connection_idle_timeout: u64,
    pub max_idle_connections: usize,
    pub enable_http2: bool,
}

impl Default for PoolConfig {
    /// Ten connections per host, five minutes of idle time, fifty idle
    /// connections, HTTP/2 on.
    fn default() -> (r: Self)
        ensures
            r.max_connections_per_host == 10,
            r.connection_idle_timeout == 300000000000,
            r.max_idle_connections == 50,
            r.enable_http2,
    {
        PoolConfig {
            max_connections_per_host: 10,
            connection_idle_timeout: 300000000000,
            max_idle_connections: 50,
            enable_http2: true,
        }
    }
}

/// A client of the pool with its bookkeeping.
pub struct PooledConnection {
    pub client: reqwest::Client,
    pub last_used: u64,
    pub in_use: bool,
    pub request_count: u64,
}

/// Counters of the pool.
#[derive(Debug)]
pub struct PoolStats {
    pub total_connections: usize,
    pub active_connections: usize,
    pub idle_connections: usize,
    pub requests_served: u64,
    pub connections_created: u64,
    pub connections_reused: u64,
}

impl Default for PoolStats {
    /// All counters at zero.
    fn default() -> (r: Self)
        ensures
            r == PoolStats::zero(),
    {
        PoolStats {
            total_connections: 0,
            active_connections: 0,
            idle_connections: 0,
            requests_served: 0,
            connections_created: 0,
            connections_reused: 0,
        }
    }
}

impl PoolStats {
    /// All counters at zero.
    pub open spec fn zero() -> PoolStats {
        PoolStats {
            total_connections: 0,
            active_connections: 0,
            idle_connections: 0,
            requests_served: 0,
            connections_created: 0,
            connections_reused: 0,
        }
    }
}

/// The connections of one host, in the order they were created.
pub struct HostConnections {
    pub host: String,
    pub connections: Vec<PooledConnection>,
}

/// Whether a connection last used at `last_used` has expired at `now`.
pub open spec fn spec_is_expired(last_used: u64, now: u64, timeout: u64) -> bool {
    crate::system::spec_elapsed(now, last_used) > timeout
}

/// Whether a connection can be handed out at `now`: free and not expired.
pub open spec fn spec_available(c: PooledConnection, now: u64, timeout: u64) -> bool {
    !c.in_use && !spec_is_expired(c.last_used, now, timeout)
}

/// The connection after it is handed out at `now`.
pub open spec fn spec_used(c: PooledConnection, now: u64) -> PooledConnection {
    PooledConnection { client: c.client, last_used: now, in_use: true, request_count: (c.request_count + 1) as u64 }
}

/// The connections of `s` that have not expired at `now`, in order.
pub open spec fn spec_fresh(s: Seq<PooledConnection>, now: u64, timeout: u64) -> Seq<PooledConnection>
    decreases s.len(),
{
    if s.len() == 0 {
        s
    } else {
        let kept = spec_fresh(s.drop_last(), now, timeout);
        if spec_is_expired(s.last().last_used, now, timeout) { kept } else { kept.push(s.last()) }
    }
}

/// The first connection of `s` that can be handed out at `now`.
pub open spec fn spec_first_available(s: Seq<PooledConnection>, now: u64, timeout: u64) -> Option<int>
    decreases s.len(),
{
    if s.len() == 0 {
        None
    } else {
        match spec_first_available(s.drop_last(), now, timeout) {
            Some(i) => Some(i),
            None => if spec_available(s.last(), now, timeout) { Some(s.len() - 1) } else { None },
        }
    }
}

/// The first free connection of `s` among those used least recently.
pub open spec fn spec_least_recent_free(s: Seq<PooledConnection>) -> Option<int>
    decreases s.len(),
{
    if s.len() == 0 {
        None
    } else {
        let p = spec_least_recent_free(s.drop_last());
        if !s.last().in_use && (p is None || s.last().last_used < s[p->0].last_used) {
            Some(s.len() - 1)
        } else {
            p
        }
    }
}

/// The host key of `url`: scheme, `://`, and the host or `localhost`.
pub open spec fn spec_host_key(url: Seq<char>) -> Option<Seq<char>> {
    match url_scheme_and_host(url) {
        Some((scheme, host)) => Some(scheme + seq![':', '/', '/'] + match host {
            Some(h) => h,
            None => seq!['l', 'o', 'c', 'a', 'l', 'h', 'o', 's', 't'],
        }),
        None => None,
    }
}

/// Why the pool could not hand out a client.
#[derive(Debug)]
pub enum PoolError {
    /// The URL does not parse.
    InvalidUrl(url::ParseError),
    /// A new client could not be built.
    ClientBuild(reqwest::Error),
}

/// HTTP connection pool for reusing clients per host.
pub struct ConnectionPool {
    hosts: Vec<HostConnections>,
    config: PoolConfig,
    stats: PoolStats,
}


/// The stats after a free connection was handed out again.
pub open spec fn spec_stats_reused_idle(s: PoolStats) -> PoolStats {
    PoolStats {
        total_connections: s.total_connections,
        active_connections: (s.active_connections + 1) as usize,
        idle_connections: if s.idle_connections > 0 { (s.idle_connections - 1) as usize } else { 0 },
        requests_served: (s.requests_served + 1) as u64,
        connections_created: s.connections_created,
        connections_reused: (s.connections_reused + 1) as u64,
    }
}

/// The stats after the least recently used free connection of a full host
/// was handed out.
pub open spec fn spec_stats_reused_full(s: PoolStats) -> PoolStats {
    PoolStats {
        requests_served: (s.requests_served + 1) as u64,
        connections_reused: (s.connections_reused + 1) as u64,
        ..s
    }
}

/// The stats after a new connection was created and handed out.
pub open spec fn spec_stats_created(s: PoolStats) -> PoolStats {
    PoolStats {
        total_connections: (s.total_connections + 1) as usize,
        active_connections: (s.active_connections + 1) as usize,
        requests_served: (s.requests_served + 1) as u64,
        connections_created: (s.connections_created + 1) as u64,
        ..s
    }
}

/// The first index of `entries` whose host is `host`.
pub open spec fn spec_host_index(entries: Seq<HostConnections>, host: Seq<char>) -> Option<int> {
    if exists|i: int| 0 <= i < entries.len() && entries[i].host@ == host {
        Some(choose|i: int| 0 <= i < entries.len() && entries[i].host@ == host)
    } else {
        None
    }
}

/// The connections that `entries` keeps for `host` (none for an unknown host).
pub open spec fn spec_connections_of(entries: Seq<HostConnections>, host: Seq<char>) -> Seq<PooledConnection> {
    match spec_host_index(entries, host) {
        Some(i) => entries[i].connections@,
        None => Seq::empty(),
    }
}

/// No host appears twice.
pub open spec fn spec_hosts_distinct(entries: Seq<HostConnections>) -> bool {
    forall|i: int, j: int| #![trigger entries[i], entries[j]] 0 <= i < j < entries.len() ==> entries[i].host@ != entries[j].host@
}

/// Replacing the connections at the index of `host` changes what is kept for
/// `host` and nothing else.
proof fn lemma_update_entry(entries: Seq<HostConnections>, idx: int, e: HostConnections, host: Seq<char>, other: Seq<char>)
    requires
        spec_hosts_distinct(entries),
        0 <= idx < entries.len(),
        entries[idx].host@ == host,
        e.host@ == host,
    ensures
        spec_hosts_distinct(entries.update(idx, e)),
        spec_connections_of(entries.update(idx, e), host) == e.connections@,
        other != host ==> spec_connections_of(entries.update(idx, e), other) == spec_connections_of(entries, other),
{
    let u = entries.update(idx, e);
    assert(u[idx].host@ == host);
    if other != host {
        if exists|i: int| 0 <= i < entries.len() && entries[i].host@ == other {
            let k = choose|i: int| 0 <= i < entries.len() && entries[i].host@ == other;
            assert(u[k].host@ == other);
            let k2 = choose|i: int| 0 <= i < u.len() && u[i].host@ == other;
            assert(k2 == k);
        } else {
            assert(!exists|i: int| 0 <= i < u.len() && u[i].host@ == other) by {
                if exists|i: int| 0 <= i < u.len() && u[i].host@ == other {
                    let k = choose|i: int| 0 <= i < u.len() && u[i].host@ == other;
                    assert(entries[k].host@ == other);
                }
            }
        }
    }
}

/// Adding an empty entry for a new host changes what any host keeps.
proof fn lemma_push_entry(entries: Seq<HostConnections>, e: HostConnections, other: Seq<char>)
    requires
        spec_hosts_distinct(entries),
        spec_host_index(entries, e.host@) is None,
        e.connections@.len() == 0,
    ensures
        spec_hosts_distinct(entries.push(e)),
        spec_connections_of(entries.push(e), other) == spec_connections_of(entries, other),
        spec_host_index(entries.push(e), e.host@) == Some(entries.len() as int),
{
    let u = entries.push(e);
    assert(u[entries.len() as int].host@ == e.host@);
    if exists|i: int| 0 <= i < entries.len() && entries[i].host@ == other {
        let k = choose|i: int| 0 <= i < entries.len() && entries[i].host@ == other;
        assert(u[k].host@ == other);
    } else if other == e.host@ {
        let k2 = choose|i: int| 0 <= i < u.len() && u[i].host@ == other;
        assert(k2 == entries.len());
    } else {
        assert(!exists|i: int| 0 <= i < u.len() && u[i].host@ == other) by {
            if exists|i: int| 0 <= i < u.len() && u[i].host@ == other {
                let k = choose|i: int| 0 <= i < u.len() && u[i].host@ == other;
                assert(entries[k].host@ == other);
            }
        }
    }
}

/// The index of the entry for `host`, if there is one.
fn find_host(hosts: &Vec<HostConnections>, host: &String) -> (r: Option<usize>)
    requires
        spec_hosts_distinct(hosts@),
    ensures
        match r {
            Some(i) => i < hosts@.len() && hosts@[i as int].host@ == host@
                && spec_connections_of(hosts@, host@) == hosts@[i as int].connections@,
            None => forall|k: int| 0 <= k < hosts@.len() ==> hosts@[k].host@ != host@,
        },
{
    let mut i: usize = 0;
    while i < hosts.len()
        invariant
            i <= hosts@.len(),
            forall|k: int| 0 <= k < i ==> hosts@[k].host@ != host@,
            spec_hosts_distinct(hosts@),
        decreases hosts@.len() - i,
    {
        if hosts[i].host == *host {
            proof {
                let k = choose|k: int| 0 <= k < hosts@.len() && hosts@[k].host@ == host@;
                if k != i as int {
                    if k < i as int {
                    } else {
                        let a = hosts@[i as int];
                        let b = hosts@[k];
                        assert(a.host@ != b.host@);
                    }
                }
            }
            return Some(i);
        }
        i = i + 1;
    }
    None
}

impl ConnectionPool {
    /// The connections kept for `host`.
    pub closed spec fn connections(&self, host: Seq<char>) -> Seq<PooledConnection> {
        spec_connections_of(self.hosts@, host)
    }

    /// The pool's configuration.
    pub closed spec fn config_view(&self) -> PoolConfig {
        self.config
    }

    /// The pool's counters.
    pub closed spec fn stats_view(&self) -> PoolStats {
        self.stats
    }

    /// What every pool keeps: one entry per host, and no counter above the
    /// number of requests served.
    pub closed spec fn wf(&self) -> bool {
        &&& spec_hosts_distinct(self.hosts@)
        &&& self.stats.total_connections <= self.stats.requests_served
        &&& self.stats.active_connections <= self.stats.requests_served
        &&& self.stats.connections_created <= self.stats.requests_served
        &&& self.stats.connections_reused <= self.stats.requests_served
        &&& self.stats.connections_created + self.stats.connections_reused == self.stats.requests_served
        &&& forall|i: int, j: int| 0 <= i < self.hosts@.len() && 0 <= j < self.hosts@[i].connections@.len()
            ==> #[trigger] self.hosts@[i].connections@[j].request_count <= self.stats.requests_served
    }

    /// An empty pool with the given configuration.
    pub fn new(config: PoolConfig) -> (r: Self)
        ensures
            r.wf(),
            r.config_view() == config,
            r.stats_view() == PoolStats::zero(),
            forall|h: Seq<char>| r.connections(h) == Seq::<PooledConnection>::empty(),
    {
        ConnectionPool { hosts: Vec::new(), config, stats: PoolStats::default() }
    }

    /// The host key of a URL: scheme, `://` and host (`localhost` when the
    /// URL has none).
    fn extract_host(url: &str) -> (r: Result<String, url::ParseError>)
        ensures
            match r {
                Ok(h) => spec_host_key(url@) == Some(h@),
                Err(_) => spec_host_key(url@) is None,
            },
    {
        match parse_scheme_and_host(url) {
            Ok((scheme, host)) => {
                let mut key = scheme;
                key.append("://");
                proof {
                    reveal_strlit("://");
                    reveal_strlit("localhost");
                }
                match host {
                    Some(h) => key.append(h.as_str()),
                    None => key.append("localhost"),
                }
                Ok(key)
            },
            Err(e) => Err(e),
        }
    }

    /// The index of the entry for `host`, added empty when the host is new.
    fn entry_index(&mut self, host: String) -> (idx: usize)
        requires
            old(self).wf(),
        ensures
            final(self).wf(),
            idx < final(self).hosts@.len(),
            final(self).hosts@[idx as int].host@ == host@,
            final(self).config == old(self).config,
            final(self).stats == old(self).stats,
            forall|h: Seq<char>| final(self).connections(h) == old(self).connections(h),
    {
        let mut i: usize = 0;
        while i < self.hosts.len()
            invariant
                i <= self.hosts@.len(),
                forall|k: int| 0 <= k < i ==> self.hosts@[k].host@ != host@,
                self.wf(),
                self.hosts@ == old(self).hosts@,
                self.stats == old(self).stats,
                self.config == old(self).config,
            decreases self.hosts@.len() - i,
        {
            if self.hosts[i].host == host {
                return i;
            }
            i = i + 1;
        }
        let ghost old_hosts = self.hosts@;
        let entry = HostConnections { host, connections: Vec::new() };
        proof {
            lemma_push_entry_all(old_hosts, entry);
        }
        self.hosts.push(entry);
        assert(self.hosts@ == old_hosts.push(entry));
        proof {
            assert forall|a: int, b: int| 0 <= a < self.hosts@.len() && 0 <= b < self.hosts@[a].connections@.len()
                implies #[trigger] self.hosts@[a].connections@[b].request_count <= self.stats.requests_served by {
                if a < old_hosts.len() {
                    assert(self.hosts@[a] == old_hosts[a]);
                }
            }
        }
        i
    }
}

/// Adding an empty entry for a new host changes what any host keeps.
proof fn lemma_push_entry_all(entries: Seq<HostConnections>, e: HostConnections)
    requires
        spec_hosts_distinct(entries),
        forall|k: int| 0 <= k < entries.len() ==> entries[k].host@ != e.host@,
        e.connections@.len() == 0,
    ensures
        spec_hosts_distinct(entries.push(e)),
        forall|h: Seq<char>| spec_connections_of(entries.push(e), h) == spec_connections_of(entries, h),
{
    assert forall|h: Seq<char>| spec_connections_of(entries.push(e), h) == spec_connections_of(entries, h) by {
        lemma_push_entry(entries, e, h);
    }
    lemma_push_entry(entries, e, e.host@);
}


/// The index of the first connection that can be handed out at `now`.
fn find_available(conns: &Vec<PooledConnection>, now: u64, timeout: u64) -> (r: Option<usize>)
    ensures
        match r {
            Some(i) => i < conns@.len() && spec_first_available(conns@, now, timeout) == Some(i as int),
            None => spec_first_available(conns@, now, timeout) is None,
        },
{
    let mut i: usize = 0;
    while i < conns.len()
        invariant
            i <= conns@.len(),
            spec_first_available(conns@.take(i as int), now, timeout) is None,
        decreases conns@.len() - i,
    {
        assert(conns@.take(i as int + 1).drop_last() == conns@.take(i as int));
        let c = &conns[i];
        if !c.in_use && !(crate::system::elapsed(now, c.last_used) > timeout) {
            proof { lemma_first_available_prefix(conns@, i as int, now, timeout); }
            return Some(i);
        }
        i = i + 1;
    }
    assert(conns@.take(conns@.len() as int) == conns@);
    None
}

/// The first available connection of a sequence is that of a prefix that
/// already contains one.
proof fn lemma_first_available_prefix(s: Seq<PooledConnection>, i: int, now: u64, timeout: u64)
    requires
        0 <= i < s.len(),
        spec_first_available(s.take(i), now, timeout) is None,
        spec_available(s[i], now, timeout),
    ensures
        spec_first_available(s, now, timeout) == Some(i),
    decreases s.len(),
{
    assert(s.take(i + 1).drop_last() == s.take(i));
    if s.len() > i + 1 {
        assert(s.drop_last().take(i) == s.take(i));
        lemma_first_available_prefix(s.drop_last(), i, now, timeout);
    }
}

/// The index of the first free connection among those used least recently
/// (the first minimum, as `Iterator::min_by_key` picks it).
fn find_least_recent_free(conns: &Vec<PooledConnection>) -> (r: Option<usize>)
    ensures
        match r {
            Some(i) => i < conns@.len() && spec_least_recent_free(conns@) == Some(i as int),
            None => spec_least_recent_free(conns@) is None,
        },
{
    let mut best: Option<usize> = None;
    let mut i: usize = 0;
    while i < conns.len()
        invariant
            i <= conns@.len(),
            match best {
                Some(b) => b < i && spec_least_recent_free(conns@.take(i as int)) == Some(b as int),
                None => spec_least_recent_free(conns@.take(i as int)) is None,
            },
        decreases conns@.len() - i,
    {
        let ghost pre = conns@.take(i as int);
        assert(conns@.take(i as int + 1).drop_last() == pre);
        proof { lemma_search_in_range(pre, 0, 0); }
        if !conns[i].in_use {
            match best {
                None => { best = Some(i); },
                Some(b) => {
                    assert(pre[b as int] == conns@[b as int]);
                    if conns[i].last_used < conns[b].last_used {
                        best = Some(i);
                    }
                },
            }
        }
        i = i + 1;
    }
    assert(conns@.take(conns@.len() as int) == conns@);
    best
}

/// The connections of `conns` that have not expired at `now`, in order.
fn retain_fresh(conns: &mut Vec<PooledConnection>, now: u64, timeout: u64)
    ensures
        final(conns)@ == spec_fresh(old(conns)@, now, timeout),
{
    let ghost orig = conns@;
    let mut kept: Vec<PooledConnection> = Vec::new();
    let mut k: usize = 0;
    let n = conns.len();
    while conns.len() > 0
        invariant
            n == orig.len(),
            k + conns@.len() == n,
            conns@ == orig.skip(k as int),
            kept@ == spec_fresh(orig.take(k as int), now, timeout),
        decreases conns@.len(),
    {
        let c = conns.remove(0);
        proof {
            assert(orig.take(k as int + 1).drop_last() == orig.take(k as int));
            assert(orig.take(k as int + 1).last() == c);
        }
        if !(crate::system::elapsed(now, c.last_used) > timeout) {
            kept.push(c);
        }
        k = k + 1;
        proof {
            assert(conns@ == orig.skip(k as int));
        }
    }
    assert(orig.take(n as int) == orig);
    *conns = kept;
}

/// Hands out the connection at `i` at `now` and returns its client.
fn mark_used(conns: &mut Vec<PooledConnection>, i: usize, now: u64) -> (r: reqwest::Client)
    requires
        i < old(conns)@.len(),
        old(conns)@[i as int].request_count < u64::MAX,
    ensures
        final(conns)@ == old(conns)@.update(i as int, spec_used(old(conns)@[i as int], now)),
        r == old(conns)@[i as int].client,
{
    let mut c = conns.remove(i);
    c.in_use = true;
    c.last_used = now;
    c.request_count = c.request_count + 1;
    let client = c.client.clone();
    conns.insert(i, c);
    proof {
        assert(conns@ =~= old(conns)@.update(i as int, spec_used(old(conns)@[i as int], now)));
    }
    client
}

/// Every connection of `spec_fresh(s)` is a connection of `s`.
proof fn lemma_fresh_subset(s: Seq<PooledConnection>, now: u64, timeout: u64)
    ensures
        forall|j: int| 0 <= j < spec_fresh(s, now, timeout).len()
            ==> exists|k: int| 0 <= k < s.len() && s[k] == #[trigger] spec_fresh(s, now, timeout)[j],
        spec_fresh(s, now, timeout).len() <= s.len(),
    decreases s.len(),
{
    if s.len() > 0 {
        lemma_fresh_subset(s.drop_last(), now, timeout);
        let kept = spec_fresh(s.drop_last(), now, timeout);
        assert forall|j: int| 0 <= j < spec_fresh(s, now, timeout).len()
            implies exists|k: int| 0 <= k < s.len() && s[k] == #[trigger] spec_fresh(s, now, timeout)[j] by {
            if j < kept.len() {
                let k = choose|k: int| 0 <= k < s.drop_last().len() && s.drop_last()[k] == kept[j];
                assert(s[k] == kept[j]);
            } else {
                assert(s[s.len() - 1] == s.last());
            }
        }
    }
}

/// What handing out a client for a host does: `conns` are the host's
/// connections before, `out` after, `stats` and `out_stats` the counters
/// before and after, and `r` the answer.
///
/// The first free connection that has not expired is handed out again.
/// Otherwise the expired connections are dropped; when the host is then at its
/// limit and has a free connection, the least recently used one is handed out;
/// else a new client is built and added, in use.
#[verifier::opaque]
pub open spec fn spec_served(
    conns: Seq<PooledConnection>,
    now: u64,
    config: PoolConfig,
    stats: PoolStats,
    r: Result<reqwest::Client, PoolError>,
    out: Seq<PooledConnection>,
    out_stats: PoolStats,
) -> bool {
    let timeout = config.connection_idle_timeout;
    let fresh = spec_fresh(conns, now, timeout);
    match spec_first_available(conns, now, timeout) {
        Some(i) => {
            &&& r == Ok::<reqwest::Client, PoolError>(conns[i].client)
            &&& out == conns.update(i, spec_used(conns[i], now))
            &&& out_stats == spec_stats_reused_idle(stats)
        },
        None => if fresh.len() >= config.max_connections_per_host && spec_least_recent_free(fresh) is Some {
            let j = spec_least_recent_free(fresh)->0;
            &&& r == Ok::<reqwest::Client, PoolError>(fresh[j].client)
            &&& out == fresh.update(j, spec_used(fresh[j], now))
            &&& out_stats == spec_stats_reused_full(stats)
        } else {
            match r {
                Ok(client) => {
                    &&& out == fresh.push(PooledConnection { client, last_used: now, in_use: true, request_count: 1 })
                    &&& out_stats == spec_stats_created(stats)
                },
                Err(e) => {
                    &&& e is ClientBuild
                    &&& out == fresh
                    &&& out_stats == stats
                },
            }
        },
    }
}

/// How a request for a host was served.
enum Handout {
    ReusedIdle(reqwest::Client),
    ReusedFull(reqwest::Client),
    Created(reqwest::Client),
    BuildFailed(reqwest::Error),
}

/// What serving a request does to the connections `conns` of its host.
#[verifier::opaque]
spec fn spec_serve(conns: Seq<PooledConnection>, now: u64, config: PoolConfig, h: Handout, out: Seq<PooledConnection>) -> bool {
    let timeout = config.connection_idle_timeout;
    let fresh = spec_fresh(conns, now, timeout);
    match spec_first_available(conns, now, timeout) {
        Some(i) => h == Handout::ReusedIdle(conns[i].client) && out == conns.update(i, spec_used(conns[i], now)),
        None => if fresh.len() >= config.max_connections_per_host && spec_least_recent_free(fresh) is Some {
            let j = spec_least_recent_free(fresh)->0;
            h == Handout::ReusedFull(fresh[j].client) && out == fresh.update(j, spec_used(fresh[j], now))
        } else {
            match h {
                Handout::Created(client) => out == fresh.push(PooledConnection { client, last_used: now, in_use: true, request_count: 1 }),
                Handout::BuildFailed(_) => out == fresh,
                _ => false,
            }
        },
    }
}

/// The answer that a handout gives.
spec fn spec_handout_result(h: Handout) -> Result<reqwest::Client, PoolError> {
    match h {
        Handout::ReusedIdle(c) => Ok(c),
        Handout::ReusedFull(c) => Ok(c),
        Handout::Created(c) => Ok(c),
        Handout::BuildFailed(e) => Err(PoolError::ClientBuild(e)),
    }
}

/// The counters after a handout.
spec fn spec_handout_stats(h: Handout, s: PoolStats) -> PoolStats {
    match h {
        Handout::ReusedIdle(_) => spec_stats_reused_idle(s),
        Handout::ReusedFull(_) => spec_stats_reused_full(s),
        Handout::Created(_) => spec_stats_created(s),
        Handout::BuildFailed(_) => s,
    }
}

/// Serving a host through a handout is what `spec_served` describes.
proof fn lemma_handout_served(conns: Seq<PooledConnection>, now: u64, config: PoolConfig, stats: PoolStats, h: Handout, out: Seq<PooledConnection>)
    requires
        spec_serve(conns, now, config, h, out),
    ensures
        spec_served(conns, now, config, stats, spec_handout_result(h), out, spec_handout_stats(h, stats)),
{
    reveal(spec_serve);
    reveal(spec_served);
}

/// Serves one request from the connections of a host.
fn serve_host(conns: &mut Vec<PooledConnection>, now: u64, config: &PoolConfig, settings: &ClientSettings, served: u64) -> (h: Handout)
    requires
        spec_client_settings_for(*settings, *config),
        served < u64::MAX,
        forall|j: int| 0 <= j < old(conns)@.len() ==> #[trigger] old(conns)@[j].request_count <= served,
    ensures
        spec_serve(old(conns)@, now, *config, h, final(conns)@),
        h is BuildFailed ==> forall|j: int| 0 <= j < final(conns)@.len() ==> #[trigger] final(conns)@[j].request_count <= served,
        forall|j: int| 0 <= j < final(conns)@.len() ==> #[trigger] final(conns)@[j].request_count <= served + 1,
{
    reveal(spec_serve);
    let timeout = config.connection_idle_timeout;
    let ghost orig = conns@;
    proof {
        lemma_search_in_range(orig, now, timeout);
        lemma_search_in_range(spec_fresh(orig, now, timeout), now, timeout);
    }
    match find_available(conns, now, timeout) {
        Some(i) => {
            let client = mark_used(conns, i, now);
            proof {
                assert forall|j: int| 0 <= j < conns@.len() implies #[trigger] conns@[j].request_count <= served + 1 by {
                    if j != i as int { assert(conns@[j] == orig[j]); }
                }
            }
            Handout::ReusedIdle(client)
        },
        None => {
            retain_fresh(conns, now, timeout);
            proof {
                lemma_fresh_subset(orig, now, timeout);
                assert forall|j: int| 0 <= j < conns@.len() implies #[trigger] conns@[j].request_count <= served by {
                    let k = choose|k: int| 0 <= k < orig.len() && orig[k] == #[trigger] spec_fresh(orig, now, timeout)[j];
                }
            }
            let ghost fresh = conns@;
            if conns.len() >= config.max_connections_per_host {
                match find_least_recent_free(conns) {
                    Some(j) => {
                        let client = mark_used(conns, j, now);
                        proof {
                            assert forall|k: int| 0 <= k < conns@.len() implies #[trigger] conns@[k].request_count <= served + 1 by {
                                if k != j as int { assert(conns@[k] == fresh[k]); }
                            }
                        }
                        return Handout::ReusedFull(client);
                    },
                    None => {},
                }
            }
            match build_client(settings) {
                Ok(client) => {
                    let same = client.clone();
                    conns.push(PooledConnection { client: same, last_used: now, in_use: true, request_count: 1 });
                    assert(conns@ == fresh.push(PooledConnection { client, last_used: now, in_use: true, request_count: 1 }));
                    proof {
                        assert forall|k: int| 0 <= k < conns@.len() implies #[trigger] conns@[k].request_count <= served + 1 by {
                            if k < fresh.len() { assert(conns@[k] == fresh[k]); }
                        }
                    }
                    Handout::Created(client)
                },
                Err(e) => {
                    Handout::BuildFailed(e)
                },
            }
        },
    }
}

impl ConnectionPool {
    /// Whether the counters can take one more request.
    pub open spec fn has_room(&self) -> bool {
        self.stats_view().requests_served < usize::MAX
    }

    /// Hands out a client for the host of `base_url` at `now`: the first free
    /// connection that has not expired; else, after dropping the expired ones,
    /// the least recently used free one when the host is at its limit; else a
    /// newly built client.
    pub fn get_client(&mut self, base_url: &str, now: u64) -> (r: Result<reqwest::Client, PoolError>)
        requires
            old(self).wf(),
            old(self).has_room(),
        ensures
            final(self).wf(),
            final(self).config_view() == old(self).config_view(),
            final(self).stats_view().requests_served <= old(self).stats_view().requests_served + 1,
            match spec_host_key(base_url@) {
                None => {
                    &&& r matches Err(PoolError::InvalidUrl(_))
                    &&& final(self).stats_view() == old(self).stats_view()
                    &&& forall|h: Seq<char>| final(self).connections(h) == old(self).connections(h)
                },
                Some(host) => {
                    &&& forall|h: Seq<char>| h != host ==> final(self).connections(h) == old(self).connections(h)
                    &&& spec_served(old(self).connections(host), now, old(self).config_view(), old(self).stats_view(),
                        r, final(self).connections(host), final(self).stats_view())
                },
            },
    {
        let host = match Self::extract_host(base_url) {
            Ok(h) => h,
            Err(e) => return Err(PoolError::InvalidUrl(e)),
        };
        let ghost host_view = host@;
        let idx = self.entry_index(host);
        let ghost mid_hosts = self.hosts@;
        let mut entry = self.hosts.remove(idx);
        let ghost conns = entry.connections@;
        assert(spec_connections_of(mid_hosts, host_view) == conns) by {
            let k = choose|k: int| 0 <= k < mid_hosts.len() && mid_hosts[k].host@ == host_view;
            assert(k == idx as int);
        }
        proof {
            assert forall|j: int| 0 <= j < conns.len() implies #[trigger] conns[j].request_count <= self.stats.requests_served by {
                assert(mid_hosts[idx as int].connections@[j] == conns[j]);
            }
        }
        let settings = client_settings(&self.config);
        let handout = serve_host(&mut entry.connections, now, &self.config, &settings, self.stats.requests_served);
        let ghost new_entry = entry;
        self.hosts.insert(idx, entry);
        let result = match handout {
            Handout::ReusedIdle(client) => {
                self.stats.active_connections = self.stats.active_connections + 1;
                self.stats.idle_connections = self.stats.idle_connections.saturating_sub(1);
                self.stats.requests_served = self.stats.requests_served + 1;
                self.stats.connections_reused = self.stats.connections_reused + 1;
                Ok(client)
            },
            Handout::ReusedFull(client) => {
                self.stats.requests_served = self.stats.requests_served + 1;
                self.stats.connections_reused = self.stats.connections_reused + 1;
                Ok(client)
            },
            Handout::Created(client) => {
                self.stats.total_connections = self.stats.total_connections + 1;
                self.stats.active_connections = self.stats.active_connections + 1;
                self.stats.requests_served = self.stats.requests_served + 1;
                self.stats.connections_created = self.stats.connections_created + 1;
                Ok(client)
            },
            Handout::BuildFailed(e) => Err(PoolError::ClientBuild(e)),
        };
        proof {
            assert(self.stats == spec_handout_stats(handout, old(self).stats));
            assert(result == spec_handout_result(handout));
            lemma_handout_served(conns, now, self.config, old(self).stats, handout, new_entry.connections@);
            assert(self.hosts@ == mid_hosts.update(idx as int, new_entry));
            assert forall|h: Seq<char>| h != host_view implies #[trigger] spec_connections_of(self.hosts@, h) == spec_connections_of(mid_hosts, h) by {
                lemma_update_entry(mid_hosts, idx as int, new_entry, host_view, h);
            }
            lemma_update_entry(mid_hosts, idx as int, new_entry, host_view, host_view);
            assert forall|a: int, b: int| 0 <= a < self.hosts@.len() && 0 <= b < self.hosts@[a].connections@.len()
                implies #[trigger] self.hosts@[a].connections@[b].request_count <= self.stats.requests_served by {
                if a != idx as int {
                    assert(self.hosts@[a] == mid_hosts[a]);
                } else {
                    assert(self.hosts@[a] == new_entry);
                }
            }
        }
        result
    }
}


/// The index of the first connection of `s` that is in use.
pub open spec fn spec_first_in_use(s: Seq<PooledConnection>) -> Option<int>
    decreases s.len(),
{
    if s.len() == 0 {
        None
    } else {
        match spec_first_in_use(s.drop_last()) {
            Some(i) => Some(i),
            None => if s.last().in_use { Some(s.len() - 1) } else { None },
        }
    }
}

/// An index that the search functions return lies within the sequence.
pub proof fn lemma_search_in_range(s: Seq<PooledConnection>, now: u64, timeout: u64)
    ensures
        spec_first_available(s, now, timeout) matches Some(i) ==> 0 <= i < s.len() && spec_available(s[i], now, timeout),
        spec_least_recent_free(s) matches Some(i) ==> 0 <= i < s.len() && !s[i].in_use,
        spec_first_in_use(s) matches Some(i) ==> 0 <= i < s.len() && s[i].in_use,
    decreases s.len(),
{
    if s.len() > 0 {
        lemma_search_in_range(s.drop_last(), now, timeout);
    }
}

/// The connection after it is given back at `now`.
pub open spec fn spec_released(c: PooledConnection, now: u64) -> PooledConnection {
    PooledConnection { in_use: false, last_used: now, ..c }
}

/// How many connections of `s` have expired at `now`.
pub open spec fn spec_expired_count(s: Seq<PooledConnection>, now: u64, timeout: u64) -> int {
    s.len() - spec_fresh(s, now, timeout).len()
}

/// How many connections of the entries `e` have expired at `now`.
pub open spec fn spec_expired_total(e: Seq<HostConnections>, now: u64, timeout: u64) -> int
    decreases e.len(),
{
    if e.len() == 0 {
        0
    } else {
        spec_expired_total(e.drop_last(), now, timeout) + spec_expired_count(e.last().connections@, now, timeout)
    }
}

/// `x - y`, or zero when `y` is larger.
pub open spec fn spec_saturating_sub(x: int, y: int) -> int {
    if x > y { x - y } else { 0 }
}

/// The index of the first connection in use.
fn find_in_use(conns: &Vec<PooledConnection>) -> (r: Option<usize>)
    ensures
        match r {
            Some(i) => i < conns@.len() && spec_first_in_use(conns@) == Some(i as int),
            None => spec_first_in_use(conns@) is None,
        },
{
    let mut i: usize = 0;
    while i < conns.len()
        invariant
            i <= conns@.len(),
            spec_first_in_use(conns@.take(i as int)) is None,
        decreases conns@.len() - i,
    {
        assert(conns@.take(i as int + 1).drop_last() == conns@.take(i as int));
        if conns[i].in_use {
            proof { lemma_first_in_use_prefix(conns@, i as int); }
            return Some(i);
        }
        i = i + 1;
    }
    assert(conns@.take(conns@.len() as int) == conns@);
    None
}

/// The first connection in use of a sequence is that of a prefix that
/// already contains one.
proof fn lemma_first_in_use_prefix(s: Seq<PooledConnection>, i: int)
    requires
        0 <= i < s.len(),
        spec_first_in_use(s.take(i)) is None,
        s[i].in_use,
    ensures
        spec_first_in_use(s) == Some(i),
    decreases s.len(),
{
    assert(s.take(i + 1).drop_last() == s.take(i));
    if s.len() > i + 1 {
        assert(s.drop_last().take(i) == s.take(i));
        lemma_first_in_use_prefix(s.drop_last(), i);
    }
}

/// No connection that `spec_fresh` keeps has expired, and it keeps them all
/// when none has.
pub proof fn lemma_fresh_not_expired(s: Seq<PooledConnection>, now: u64, timeout: u64)
    ensures
        forall|j: int| 0 <= j < spec_fresh(s, now, timeout).len()
            ==> !spec_is_expired((#[trigger] spec_fresh(s, now, timeout)[j]).last_used, now, timeout),
    decreases s.len(),
{
    if s.len() > 0 {
        lemma_fresh_not_expired(s.drop_last(), now, timeout);
        let kept = spec_fresh(s.drop_last(), now, timeout);
        let f = spec_fresh(s, now, timeout);
        assert forall|j: int| 0 <= j < f.len() implies !spec_is_expired((#[trigger] f[j]).last_used, now, timeout) by {
            if j < kept.len() {
                assert(f[j] == kept[j]);
            }
        }
    }
}

/// Keeping only the connections that have not expired counts the removed
/// ones exactly.
proof fn lemma_fresh_len(s: Seq<PooledConnection>, now: u64, timeout: u64)
    ensures
        0 <= spec_expired_count(s, now, timeout) <= s.len(),
    decreases s.len(),
{
    lemma_fresh_subset(s, now, timeout);
}

/// How many connections of `pool` have expired at `now` among the hosts
/// `keys`.
pub open spec fn spec_expired_over(pool: ConnectionPool, keys: Seq<Seq<char>>, now: u64) -> int
    decreases keys.len(),
{
    if keys.len() == 0 {
        0
    } else {
        spec_expired_over(pool, keys.drop_last(), now)
            + spec_expired_count(pool.connections(keys.last()), now, pool.config_view().connection_idle_timeout)
    }
}

/// With distinct hosts, the connections kept for the host of an entry are
/// that entry's.
proof fn lemma_connections_at(entries: Seq<HostConnections>, k: int)
    requires
        spec_hosts_distinct(entries),
        0 <= k < entries.len(),
    ensures
        spec_connections_of(entries, entries[k].host@) == entries[k].connections@,
{
    let h = entries[k].host@;
    let j = choose|i: int| 0 <= i < entries.len() && entries[i].host@ == h;
    if j != k {
        if j < k {
            assert(entries[j].host@ != entries[k].host@);
        } else {
            assert(entries[k].host@ != entries[j].host@);
        }
    }
}

/// The expired connections of a pool, counted entry by entry, are those
/// counted host by host.
proof fn lemma_expired_total_over(pool: ConnectionPool, now: u64, i: int)
    requires
        spec_hosts_distinct(pool.hosts@),
        0 <= i <= pool.hosts@.len(),
    ensures
        spec_expired_total(pool.hosts@.take(i), now, pool.config.connection_idle_timeout)
            == spec_expired_over(pool, pool.host_keys().take(i), now),
    decreases i,
{
    let e = pool.hosts@;
    let keys = pool.host_keys();
    if i > 0 {
        lemma_expired_total_over(pool, now, i - 1);
        assert(e.take(i).drop_last() =~= e.take(i - 1));
        assert(keys.take(i).drop_last() =~= keys.take(i - 1));
        assert(keys.take(i).last() == e[i - 1].host@);
        lemma_connections_at(e, i - 1);
    } else {
        assert(keys.take(0) =~= Seq::<Seq<char>>::empty());
    }
}

impl ConnectionPool {
    /// The hosts that the pool has seen, in the order it first saw them.
    pub closed spec fn host_keys(&self) -> Seq<Seq<char>> {
        self.hosts@.map_values(|e: HostConnections| e.host@)
    }

    /// How many of the pool's connections have expired at `now`: the expired
    /// connections of each host that the pool has seen, added up.
    pub open spec fn expired_count(&self, now: u64) -> int {
        spec_expired_over(*self, self.host_keys(), now)
    }

    /// Gives back to the pool the first connection in use for the host of
    /// `base_url`, at `now`. Nothing happens when the URL does not parse or
    /// the host has no connection in use.
    pub fn return_client(&mut self, base_url: &str, now: u64)
        requires
            old(self).wf(),
            old(self).stats_view().idle_connections < usize::MAX,
        ensures
            final(self).wf(),
            final(self).config_view() == old(self).config_view(),
            match spec_host_key(base_url@) {
                Some(host) if spec_first_in_use(old(self).connections(host)) is Some => {
                    let conns = old(self).connections(host);
                    let i = spec_first_in_use(conns)->0;
                    &&& final(self).connections(host) == conns.update(i, spec_released(conns[i], now))
                    &&& forall|h: Seq<char>| h != host ==> final(self).connections(h) == old(self).connections(h)
                    &&& final(self).stats_view() == (PoolStats {
                        active_connections: spec_saturating_sub(old(self).stats_view().active_connections as int, 1) as usize,
                        idle_connections: (old(self).stats_view().idle_connections + 1) as usize,
                        ..old(self).stats_view()
                    })
                },
                _ => {
                    &&& forall|h: Seq<char>| final(self).connections(h) == old(self).connections(h)
                    &&& final(self).stats_view() == old(self).stats_view()
                },
            },
    {
        let host = match Self::extract_host(base_url) {
            Ok(h) => h,
            Err(_) => return,
        };
        let ghost host_view = host@;
        let idx: usize = match find_host(&self.hosts, &host) {
            Some(i) => i,
            None => {
                proof {
                    assert(!exists|k: int| 0 <= k < self.hosts@.len() && self.hosts@[k].host@ == host_view);
                }
                return;
            },
        };
        let ghost old_hosts = self.hosts@;
        let ghost conns = old_hosts[idx as int].connections@;
        proof { lemma_search_in_range(conns, now, 0); }
        match find_in_use(&self.hosts[idx].connections) {
            None => { return; },
            Some(i) => {
                let mut entry = self.hosts.remove(idx);
                let mut c = entry.connections.remove(i);
                c.in_use = false;
                c.last_used = now;
                entry.connections.insert(i, c);
                proof {
                    assert(entry.connections@ =~= conns.update(i as int, spec_released(conns[i as int], now)));
                }
                let ghost new_entry = entry;
                self.hosts.insert(idx, entry);
                self.stats.active_connections = self.stats.active_connections.saturating_sub(1);
                self.stats.idle_connections = self.stats.idle_connections + 1;
                proof {
                    assert(self.hosts@ == old_hosts.update(idx as int, new_entry));
                    assert forall|h: Seq<char>| h != host_view implies #[trigger] spec_connections_of(self.hosts@, h) == spec_connections_of(old_hosts, h) by {
                        lemma_update_entry(old_hosts, idx as int, new_entry, host_view, h);
                    }
                    lemma_update_entry(old_hosts, idx as int, new_entry, host_view, host_view);
                    assert forall|a: int, b: int| 0 <= a < self.hosts@.len() && 0 <= b < self.hosts@[a].connections@.len()
                        implies #[trigger] self.hosts@[a].connections@[b].request_count <= self.stats.requests_served by {
                        if a != idx as int {
                            assert(self.hosts@[a] == old_hosts[a]);
                        } else {
                            assert(self.hosts@[a].connections@[b].request_count == old_hosts[a].connections@[b].request_count);
                        }
                    }
                }
            },
        }
    }

    /// Drops every connection that has expired at `now` and returns how many
    /// were dropped; the counters are left as they are.
    pub fn remove_expired_connections(&mut self, now: u64) -> (removed: u128)
        requires
            old(self).wf(),
        ensures
            final(self).wf(),
            removed == old(self).expired_count(now),
            final(self).config_view() == old(self).config_view(),
            final(self).stats_view() == old(self).stats_view(),
            final(self).host_keys() == old(self).host_keys(),
            forall|h: Seq<char>| final(self).connections(h)
                == spec_fresh(old(self).connections(h), now, old(self).config_view().connection_idle_timeout),
    {
        let timeout = self.config.connection_idle_timeout;
        let ghost orig = self.hosts@;
        let mut removed: u128 = 0;
        let mut i: usize = 0;
        while i < self.hosts.len()
            invariant
                i <= self.hosts@.len(),
                self.hosts@.len() == orig.len(),
                timeout == self.config.connection_idle_timeout,
                self.config == old(self).config,
                self.stats == old(self).stats,
                orig == old(self).hosts@,
                old(self).wf(),
                forall|k: int| 0 <= k < orig.len() ==> #[trigger] self.hosts@[k].host@ == orig[k].host@,
                forall|k: int| 0 <= k < i ==> #[trigger] self.hosts@[k].connections@ == spec_fresh(orig[k].connections@, now, timeout),
                forall|k: int| i <= k < orig.len() ==> #[trigger] self.hosts@[k] == orig[k],
                removed == spec_expired_total(orig.take(i as int), now, timeout),
                removed <= i * usize::MAX,
            decreases orig.len() - i,
        {
            let mut entry = self.hosts.remove(i);
            let before = entry.connections.len();
            proof { lemma_fresh_len(entry.connections@, now, timeout); }
            retain_fresh(&mut entry.connections, now, timeout);
            let after = entry.connections.len();
            self.hosts.insert(i, entry);
            proof {
                assert(orig.take(i as int + 1).drop_last() == orig.take(i as int));
                assert(orig.take(i as int + 1).last() == orig[i as int]);
                assert((i + 1) * usize::MAX == i * usize::MAX + usize::MAX) by (nonlinear_arith);
                assert((i + 1) * usize::MAX <= u128::MAX) by (nonlinear_arith)
                    requires i < usize::MAX, usize::MAX <= u64::MAX;
            }
            removed = removed + ((before - after) as u128);
            i = i + 1;
        }
        proof {
            assert(orig.take(orig.len() as int) == orig);
            lemma_expired_total_over(*old(self), now, orig.len() as int);
            assert(old(self).host_keys().take(orig.len() as int) =~= old(self).host_keys());
            let hs = self.hosts@;
            assert(spec_hosts_distinct(hs));
            assert(self.host_keys() =~= old(self).host_keys());
            assert forall|h: Seq<char>| spec_connections_of(hs, h) == spec_fresh(spec_connections_of(orig, h), now, timeout) by {
                if exists|k: int| 0 <= k < orig.len() && orig[k].host@ == h {
                    let k = choose|k: int| 0 <= k < orig.len() && orig[k].host@ == h;
                    assert(hs[k].host@ == h);
                    let k2 = choose|k: int| 0 <= k < hs.len() && hs[k].host@ == h;
                    assert(k2 == k);
                } else {
                    assert(!exists|k: int| 0 <= k < hs.len() && hs[k].host@ == h) by {
                        if exists|k: int| 0 <= k < hs.len() && hs[k].host@ == h {
                            let k = choose|k: int| 0 <= k < hs.len() && hs[k].host@ == h;
                            assert(orig[k].host@ == h);
                        }
                    }
                    assert(spec_fresh(Seq::<PooledConnection>::empty(), now, timeout) == Seq::<PooledConnection>::empty());
                }
            }
            assert forall|a: int, b: int| 0 <= a < hs.len() && 0 <= b < hs[a].connections@.len()
                implies #[trigger] hs[a].connections@[b].request_count <= self.stats.requests_served by {
                lemma_fresh_subset(orig[a].connections@, now, timeout);
                let k = choose|k: int| 0 <= k < orig[a].connections@.len()
                    && orig[a].connections@[k] == #[trigger] spec_fresh(orig[a].connections@, now, timeout)[b];
                assert(orig[a].connections@[k].request_count <= self.stats.requests_served);
            }
        }
        removed
    }

    /// Drops every connection that has expired at `now`, and takes them off
    /// the total and idle counts (not going below zero).
    pub fn cleanup_expired(&mut self, now: u64)
        requires
            old(self).wf(),
        ensures
            final(self).wf(),
            final(self).config_view() == old(self).config_view(),
            final(self).host_keys() == old(self).host_keys(),
            forall|h: Seq<char>| final(self).connections(h)
                == spec_fresh(old(self).connections(h), now, old(self).config_view().connection_idle_timeout),
            final(self).stats_view() == (PoolStats {
                total_connections: spec_saturating_sub(old(self).stats_view().total_connections as int, old(self).expired_count(now)) as usize,
                idle_connections: spec_saturating_sub(old(self).stats_view().idle_connections as int, old(self).expired_count(now)) as usize,
                ..old(self).stats_view()
            }),
    {
        let removed = self.remove_expired_connections(now);
        let ghost mid = self.hosts@;
        let ghost mid_pool = *self;
        let total = self.stats.total_connections;
        self.stats.total_connections = if (total as u128) > removed { ((total as u128) - removed) as usize } else { 0 };
        let idle = self.stats.idle_connections;
        self.stats.idle_connections = if (idle as u128) > removed { ((idle as u128) - removed) as usize } else { 0 };
        assert(self.hosts@ == mid);
        assert forall|h: Seq<char>| #[trigger] self.connections(h) == mid_pool.connections(h) by {}
    }

    /// A copy of the pool's counters.
    pub fn get_stats(&self) -> (r: PoolStats)
        ensures
            r == self.stats_view(),
    {
        PoolStats {
            total_connections: self.stats.total_connections,
            active_connections: self.stats.active_connections,
            idle_connections: self.stats.idle_connections,
            requests_served: self.stats.requests_served,
            connections_created: self.stats.connections_created,
            connections_reused: self.stats.connections_reused,
        }
    }
}

/// The counters of `pool`.
pub fn get_pool_stats(pool: &ConnectionPool) -> (r: PoolStats)
    ensures
        r == pool.stats_view(),
{
    pool.get_stats()
}

/// Every request that the pool served either reused a connection or created
/// one.
pub proof fn lemma_requests_accounted(pool: &ConnectionPool)
    requires
        pool.wf(),
    ensures
        pool.stats_view().connections_created + pool.stats_view().connections_reused == pool.stats_view().requests_served,
{
}

/// A client that the pool hands out comes from a connection that is then
/// marked in use and last used at the time of the request.
pub proof fn lemma_handed_out_is_in_use(
    conns: Seq<PooledConnection>,
    now: u64,
    config: PoolConfig,
    stats: PoolStats,
    r: Result<reqwest::Client, PoolError>,
    out: Seq<PooledConnection>,
    out_stats: PoolStats,
)
    requires
        spec_served(conns, now, config, stats, r, out, out_stats),
        r is Ok,
    ensures
        exists|k: int| 0 <= k < out.len() && (#[trigger] out[k]).client == r->Ok_0 && out[k].in_use && out[k].last_used == now,
{
    reveal(spec_served);
    let timeout = config.connection_idle_timeout;
    let fresh = spec_fresh(conns, now, timeout);
    lemma_search_in_range(conns, now, timeout);
    lemma_search_in_range(fresh, now, timeout);
    match spec_first_available(conns, now, timeout) {
        Some(i) => {
            assert(0 <= i < conns.len());
            assert(out[i] == spec_used(conns[i], now));
        },
        None => {
            if fresh.len() >= config.max_connections_per_host && spec_least_recent_free(fresh) is Some {
                let j = spec_least_recent_free(fresh)->0;
                assert(0 <= j < fresh.len());
                assert(out[j] == spec_used(fresh[j], now));
            } else {
                assert(out[out.len() - 1].client == r->Ok_0);
            }
        },
    }
}

/// A sequence with a connection that can be handed out has a first one.
proof fn lemma_available_found(s: Seq<PooledConnection>, k: int, now: u64, timeout: u64)
    requires
        0 <= k < s.len(),
        spec_available(s[k], now, timeout),
    ensures
        spec_first_available(s, now, timeout) is Some,
    decreases s.len(),
{
    if k < s.len() - 1 {
        assert(s.drop_last()[k] == s[k]);
        lemma_available_found(s.drop_last(), k, now, timeout);
    }
}

/// A client given back is there for the next request: when the first
/// connection in use of a host is released at `released_at` (as
/// `return_client` does) and the host is asked for a client again at `now`,
/// within the idle timeout, the request reuses a free connection of the pool
/// and builds no new client.
pub proof fn lemma_returned_connection_is_reused(
    conns: Seq<PooledConnection>,
    released_at: u64,
    now: u64,
    config: PoolConfig,
    stats: PoolStats,
    r: Result<reqwest::Client, PoolError>,
    out: Seq<PooledConnection>,
    out_stats: PoolStats,
)
    requires
        spec_first_in_use(conns) is Some,
        spec_served(
            conns.update(spec_first_in_use(conns)->0, spec_released(conns[spec_first_in_use(conns)->0], released_at)),
            now, config, stats, r, out, out_stats,
        ),
        !spec_is_expired(released_at, now, config.connection_idle_timeout),
    ensures
        r is Ok,
        out_stats == spec_stats_reused_idle(stats),
        out_stats.connections_created == stats.connections_created,
{
    reveal(spec_served);
    let i = spec_first_in_use(conns)->0;
    lemma_search_in_range(conns, now, 0);
    let released = conns.update(i, spec_released(conns[i], released_at));
    assert(spec_available(released[i], now, config.connection_idle_timeout));
    lemma_available_found(released, i, now, config.connection_idle_timeout);
}

/// A request never reuses a stale connection: whenever it is served by
/// reusing a connection (the reuse counter moves), the client comes from a connection of the host that was
/// free and had been idle for at most the idle timeout at the request, and
/// that connection is now in use, last used at the request.
pub proof fn lemma_reuse_is_fresh(
    conns: Seq<PooledConnection>,
    now: u64,
    config: PoolConfig,
    stats: PoolStats,
    r: Result<reqwest::Client, PoolError>,
    out: Seq<PooledConnection>,
    out_stats: PoolStats,
)
    requires
        spec_served(conns, now, config, stats, r, out, out_stats),
        out_stats.connections_reused != stats.connections_reused,
    ensures
        r is Ok,
        exists|k: int| #![trigger conns[k]]
            0 <= k < conns.len()
            && !conns[k].in_use
            && crate::system::spec_elapsed(now, conns[k].last_used) <= config.connection_idle_timeout
            && conns[k].client == r->Ok_0
            && out.contains(PooledConnection { client: conns[k].client, last_used: now, in_use: true, request_count: (conns[k].request_count + 1) as u64 }),
{
    reveal(spec_served);
    let timeout = config.connection_idle_timeout;
    let fresh = spec_fresh(conns, now, timeout);
    lemma_search_in_range(conns, now, timeout);
    lemma_search_in_range(fresh, now, timeout);
    match spec_first_available(conns, now, timeout) {
        Some(i) => {
            assert(out[i] == spec_used(conns[i], now));
        },
        None => {
            if fresh.len() >= config.max_connections_per_host && spec_least_recent_free(fresh) is Some {
                let j = spec_least_recent_free(fresh)->0;
                lemma_fresh_not_expired(conns, now, timeout);
                lemma_fresh_subset(conns, now, timeout);
                let k = choose|k: int| 0 <= k < conns.len() && conns[k] == #[trigger] spec_fresh(conns, now, timeout)[j];
                assert(!spec_is_expired(fresh[j].last_used, now, timeout));
                assert(out[j] == spec_used(fresh[j], now));
                assert(conns[k] == fresh[j]);
            }
        },
    }
}

/// After a cleanup at `now`, no connection left in the pool has expired at
/// `now`.
pub proof fn lemma_cleanup_leaves_no_expired(old_conns: Seq<PooledConnection>, new_conns: Seq<PooledConnection>, now: u64, timeout: u64)
    requires
        new_conns == spec_fresh(old_conns, now, timeout),
    ensures
        forall|j: int| 0 <= j < new_conns.len() ==> !spec_is_expired((#[trigger] new_conns[j]).last_used, now, timeout),
{
    lemma_fresh_not_expired(old_conns, now, timeout);
}

} // verus!
