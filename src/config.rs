use crate::named_map::{first_named, has_name, NamedMap};
use crate::text::{decimal, decimal_text};
use vstd::prelude::*;
use vstd::string::StringExecFns;

verus! {

/// The whole server configuration: one immutable snapshot.
#[derive(Clone, Debug)]
pub struct Config {
    pub server: ServerConfig,
    pub logging: LoggingConfig,
    pub security: SecurityConfig,
    pub compression: CompressionConfig,
    pub upstream: NamedMap<UpstreamConfig>,
    pub virtual_hosts: NamedMap<VirtualHostConfig>,
}

#[derive(Clone, Debug)]
pub struct ServerConfig {
    pub listen: Vec<String>,
    pub listen_quic: Option<Vec<String>>,
    pub worker_threads: Option<usize>,
    pub max_connections: usize,
    pub keep_alive_timeout: u64,
    pub request_timeout: u64,
    pub send_timeout: u64,
    pub client_body_timeout: u64,
    pub client_header_timeout: u64,
    pub client_max_body_size: usize,
    pub tcp_nodelay: bool,
    pub tcp_fastopen: bool,
    pub enable_http3: bool,
    pub http3_max_concurrent_streams: Option<u64>,
    pub http3_max_frame_size: Option<u64>,
    pub http3_initial_connection_window_size: Option<u64>,
}

#[derive(Clone, Debug)]
pub struct LoggingConfig {
    pub access_log: Option<String>,
    pub error_log: Option<String>,
    pub log_level: String,
    pub access_log_format: String,
}

#[derive(Clone, Debug)]
pub struct SecurityConfig {
    pub enable_rate_limiting: bool,
    pub rate_limit_requests_per_second: u32,
    pub rate_limit_burst: u32,
    /// Header name to value, added to every response.
    pub security_headers: NamedMap<String>,
    pub allowed_methods: Vec<String>,
    pub max_request_size: usize,
}

#[derive(Clone, Debug)]
pub struct CompressionConfig {
    pub enable_gzip: bool,
    pub enable_brotli: bool,
    pub enable_zstd: bool,
    pub compression_level: u32,
    pub min_compress_size: usize,
    pub compress_types: Vec<String>,
}

#[derive(Clone, Debug)]
pub struct UpstreamConfig {
    pub servers: Vec<String>,
    pub load_balancing: LoadBalancingMethod,
    pub health_check: Option<HealthCheckConfig>,
    /// Milliseconds.
    pub connection_timeout: u64,
    /// Milliseconds.
    pub read_timeout: u64,
    pub max_connections: Option<usize>,
}

/// How a server is picked among the healthy members of a pool.
#[derive(Clone, Copy, Debug, PartialEq, Eq, Structural)]
pub enum LoadBalancingMethod {
    RoundRobin,
    LeastConnections,
    /// The client address does not reach the selector, so this picks as
    /// `RoundRobin` does.
    IpHash,
    Random,
}

#[derive(Clone, Debug)]
pub struct HealthCheckConfig {
    pub path: String,
    /// Seconds between two probes of one server.
    pub interval: u64,
    /// Milliseconds.
    pub timeout: u64,
    pub healthy_threshold: u32,
    pub unhealthy_threshold: u32,
}

#[derive(Clone, Debug)]
pub struct VirtualHostConfig {
    /// Exact names, `*`, or `*.suffix` wildcards.
    pub server_name: Vec<String>,
    pub document_root: Option<String>,
    pub index_files: Vec<String>,
    pub proxy_pass: Option<String>,
    pub ssl: Option<SslConfig>,
    /// Path prefix to location settings.
    pub locations: NamedMap<LocationConfig>,
}

#[derive(Clone, Debug, PartialEq)]
pub struct SslConfig {
    pub certificate: String,
    pub private_key: String,
    pub certificate_chain: Option<String>,
    pub protocols: Vec<String>,
    pub ciphers: Option<String>,
    pub auto_generate_self_signed: bool,
}

#[derive(Clone, Debug)]
pub struct LocationConfig {
    pub document_root: Option<String>,
    pub proxy_pass: Option<String>,
    pub return_code: Option<u16>,
    pub return_url: Option<String>,
    pub auth_basic: Option<String>,
    pub auth_basic_user_file: Option<String>,
}

/// The views of a list of strings.
pub open spec fn texts(v: Seq<String>) -> Seq<Seq<char>> {
    v.map_values(|s: String| s@)
}

/// The combined access-log layout.
pub const DEFAULT_ACCESS_LOG_FORMAT: &'static str = "$remote_addr - $remote_user [$time_local] \"$request\" $status $body_bytes_sent \"$http_referer\" \"$http_user_agent\"";

/// The default server settings, apart from the listen addresses.
pub open spec fn server_defaults(c: ServerConfig) -> bool {
    &&& c.listen_quic matches Some(q) && texts(q@) == seq!["0.0.0.0:8443"@]
    &&& c.worker_threads is None
    &&& c.max_connections == 10000
    &&& c.keep_alive_timeout == 65
    &&& c.request_timeout == 60
    &&& c.send_timeout == 60
    &&& c.client_body_timeout == 60
    &&& c.client_header_timeout == 60
    &&& c.client_max_body_size == 1024 * 1024
    &&& c.tcp_nodelay
    &&& !c.tcp_fastopen
    &&& c.enable_http3
    &&& c.http3_max_concurrent_streams == Some(256u64)
    &&& c.http3_max_frame_size == Some(16384u64)
    &&& c.http3_initial_connection_window_size == Some(1048576u64)
}

/// The default logging settings.
pub open spec fn logging_defaults(c: LoggingConfig) -> bool {
    &&& c.access_log matches Some(p) && p@ == "/var/log/rustweb/access.log"@
    &&& c.error_log matches Some(p) && p@ == "/var/log/rustweb/error.log"@
    &&& c.log_level@ == "info"@
    &&& c.access_log_format@ == DEFAULT_ACCESS_LOG_FORMAT@
}

/// The default security settings.
pub open spec fn security_defaults(c: SecurityConfig) -> bool {
    &&& c.enable_rate_limiting
    &&& c.rate_limit_requests_per_second == 100
    &&& c.rate_limit_burst == 200
    &&& c.security_headers@.len() == 4
    &&& c.security_headers@[0].0 == "X-Frame-Options"@
    &&& c.security_headers@[0].1@ == "DENY"@
    &&& c.security_headers@[1].0 == "X-Content-Type-Options"@
    &&& c.security_headers@[1].1@ == "nosniff"@
    &&& c.security_headers@[2].0 == "X-XSS-Protection"@
    &&& c.security_headers@[2].1@ == "1; mode=block"@
    &&& c.security_headers@[3].0 == "Strict-Transport-Security"@
    &&& c.security_headers@[3].1@ == "max-age=31536000; includeSubDomains"@
    &&& texts(c.allowed_methods@) == seq!["GET"@, "POST"@, "HEAD"@, "PUT"@, "DELETE"@]
    &&& c.max_request_size == 10 * 1024 * 1024
}

/// The default compression settings.
pub open spec fn compression_defaults(c: CompressionConfig) -> bool {
    &&& c.enable_gzip
    &&& c.enable_brotli
    &&& !c.enable_zstd
    &&& c.compression_level == 6
    &&& c.min_compress_size == 1024
    &&& texts(c.compress_types@) == seq![
        "text/html"@,
        "text/css"@,
        "text/javascript"@,
        "application/javascript"@,
        "application/json"@,
        "application/xml"@,
        "text/xml"@,
        "text/plain"@,
    ]
}

impl Default for ServerConfig {
    fn default() -> (r: Self)
        ensures
            texts(r.listen@) == seq!["0.0.0.0:8080"@],
            server_defaults(r),
    {
        let r = ServerConfig {
            listen: vec!["0.0.0.0:8080".to_string()],
            listen_quic: Some(vec!["0.0.0.0:8443".to_string()]),
            worker_threads: None,
            max_connections: 10000,
            keep_alive_timeout: 65,
            request_timeout: 60,
            send_timeout: 60,
            client_body_timeout: 60,
            client_header_timeout: 60,
            client_max_body_size: 1024 * 1024,
            tcp_nodelay: true,
            tcp_fastopen: false,
            enable_http3: true,
            http3_max_concurrent_streams: Some(256),
            http3_max_frame_size: Some(16384),
            http3_initial_connection_window_size: Some(1048576),
        };
        assert(texts(r.listen@) =~= seq!["0.0.0.0:8080"@]);
        assert(texts(r.listen_quic.unwrap()@) =~= seq!["0.0.0.0:8443"@]);
        r
    }
}

impl Default for LoggingConfig {
    fn default() -> (r: Self)
        ensures
            logging_defaults(r),
    {
        LoggingConfig {
            access_log: Some("/var/log/rustweb/access.log".to_string()),
            error_log: Some("/var/log/rustweb/error.log".to_string()),
            log_level: "info".to_string(),
            access_log_format: DEFAULT_ACCESS_LOG_FORMAT.to_string(),
        }
    }
}

impl Default for SecurityConfig {
    fn default() -> (r: Self)
        ensures
            security_defaults(r),
    {
        proof {
            reveal_strlit("X-Frame-Options");
            reveal_strlit("X-Content-Type-Options");
            reveal_strlit("X-XSS-Protection");
            reveal_strlit("Strict-Transport-Security");
        }
        let mut headers = NamedMap::new();
        headers.insert("X-Frame-Options".to_string(), "DENY".to_string());
        assert(headers@[0].0.len() != "X-Content-Type-Options"@.len());
        assert(!has_name(headers@, "X-Content-Type-Options"@));
        headers.insert("X-Content-Type-Options".to_string(), "nosniff".to_string());
        assert(headers@[0].0.len() != "X-XSS-Protection"@.len());
        assert(headers@[1].0.len() != "X-XSS-Protection"@.len());
        assert(!has_name(headers@, "X-XSS-Protection"@));
        headers.insert("X-XSS-Protection".to_string(), "1; mode=block".to_string());
        assert(headers@[0].0.len() != "Strict-Transport-Security"@.len());
        assert(headers@[1].0.len() != "Strict-Transport-Security"@.len());
        assert(headers@[2].0.len() != "Strict-Transport-Security"@.len());
        assert(!has_name(headers@, "Strict-Transport-Security"@));
        headers.insert(
            "Strict-Transport-Security".to_string(),
            "max-age=31536000; includeSubDomains".to_string(),
        );
        let r = SecurityConfig {
            enable_rate_limiting: true,
            rate_limit_requests_per_second: 100,
            rate_limit_burst: 200,
            security_headers: headers,
            allowed_methods: vec![
                "GET".to_string(),
                "POST".to_string(),
                "HEAD".to_string(),
                "PUT".to_string(),
                "DELETE".to_string(),
            ],
            max_request_size: 10 * 1024 * 1024,
        };
        assert(texts(r.allowed_methods@) =~= seq!["GET"@, "POST"@, "HEAD"@, "PUT"@, "DELETE"@]);
        r
    }
}

impl Default for CompressionConfig {
    fn default() -> (r: Self)
        ensures
            compression_defaults(r),
    {
        let r = CompressionConfig {
            enable_gzip: true,
            enable_brotli: true,
            enable_zstd: false,
            compression_level: 6,
            min_compress_size: 1024,
            compress_types: vec![
                "text/html".to_string(),
                "text/css".to_string(),
                "text/javascript".to_string(),
                "application/javascript".to_string(),
                "application/json".to_string(),
                "application/xml".to_string(),
                "text/xml".to_string(),
                "text/plain".to_string(),
            ],
        };
        assert(texts(r.compress_types@) =~= seq![
            "text/html"@,
            "text/css"@,
            "text/javascript"@,
            "application/javascript"@,
            "application/json"@,
            "application/xml"@,
            "text/xml"@,
            "text/plain"@,
        ]);
        r
    }
}

impl Default for Config {
    fn default() -> (r: Self)
        ensures
            texts(r.server.listen@) == seq!["0.0.0.0:8080"@],
            server_defaults(r.server),
            logging_defaults(r.logging),
            security_defaults(r.security),
            compression_defaults(r.compression),
            r.upstream@.len() == 0,
            r.virtual_hosts@.len() == 0,
    {
        Config {
            server: ServerConfig::default(),
            logging: LoggingConfig::default(),
            security: SecurityConfig::default(),
            compression: CompressionConfig::default(),
            upstream: NamedMap::new(),
            virtual_hosts: NamedMap::new(),
        }
    }
}

impl Config {
    /// The default configuration listening on `host:port` alone.
    pub fn default_with_host_port(host: &str, port: u16) -> (r: Self)
        ensures
            texts(r.server.listen@) == seq![host@ + ":"@ + decimal(port as nat)],
            texts(r.server.listen@) == seq![host@ + ":"@ + decimal(port as nat)],
            server_defaults(r.server),
            logging_defaults(r.logging),
            security_defaults(r.security),
            compression_defaults(r.compression),
            r.upstream@.len() == 0,
            r.virtual_hosts@.len() == 0,
    {
        let mut config = Config::default();
        let mut addr = host.to_string();
        addr.append(":");
        let port_text = decimal_text(port as u64);
        addr.append(port_text.as_str());
        config.server.listen = vec![addr];
        assert(texts(config.server.listen@) =~= seq![host@ + ":"@ + decimal(port as nat)]);
        config
    }
}

} // verus!

verus! {

/// Why a configuration is refused.
#[derive(Clone, Debug, PartialEq, Eq)]
pub enum ConfigError {
    /// `max_connections` is zero.
    NoConnections,
    /// `worker_threads` is set to zero.
    NoWorkerThreads,
    /// The upstream of this name lists no server.
    EmptyUpstream(String),
    /// The listen addresses differ, which a reload cannot apply.
    ListenChanged,
    /// This listen address is not a socket address.
    InvalidListen(String),
}

/// The outcome of the limit and pool checks of `c`: connections, then worker
/// threads, then the first upstream without a server.
pub open spec fn limits_checked(c: Config, r: Result<(), ConfigError>) -> bool {
    &&& c.server.max_connections == 0 ==> r == Err::<(), ConfigError>(ConfigError::NoConnections)
    &&& c.server.max_connections > 0 && c.server.worker_threads == Some(0usize) ==> r == Err::<
        (),
        ConfigError,
    >(ConfigError::NoWorkerThreads)
    &&& c.server.max_connections > 0 && c.server.worker_threads != Some(0usize) ==> match r {
        Ok(_) => forall|q: int|
            0 <= q < c.upstream@.len() ==> (#[trigger] c.upstream@[q]).1.servers@.len() > 0,
        Err(ConfigError::EmptyUpstream(name)) => exists|q: int|
            0 <= q < c.upstream@.len() && (#[trigger] c.upstream@[q]).0 == name@
                && c.upstream@[q].1.servers@.len() == 0,
        Err(_) => false,
    }
}

/// Listen address `i` parsed, by the flags `parsed`.
pub open spec fn listen_parsed(parsed: Seq<bool>, i: int) -> bool {
    i < parsed.len() && parsed[i]
}

/// The views of an optional string.
pub open spec fn opt_text(o: Option<String>) -> Option<Seq<char>> {
    match o {
        Some(s) => Some(s@),
        None => None,
    }
}

/// Two TLS settings say the same.
pub open spec fn same_ssl(a: Option<SslConfig>, b: Option<SslConfig>) -> bool {
    match (a, b) {
        (None, None) => true,
        (Some(x), Some(y)) => {
            &&& x.certificate@ == y.certificate@
            &&& x.private_key@ == y.private_key@
            &&& opt_text(x.certificate_chain) == opt_text(y.certificate_chain)
            &&& texts(x.protocols@) == texts(y.protocols@)
            &&& opt_text(x.ciphers) == opt_text(y.ciphers)
            &&& x.auto_generate_self_signed == y.auto_generate_self_signed
        },
        _ => false,
    }
}

/// The warning for a virtual host whose TLS settings change.
pub open spec fn ssl_warning(name: Seq<char>) -> Seq<char> {
    "SSL configuration changed for virtual host '"@ + name
        + "'. New connections will use new certificates."@
}

/// The warning for a changed worker thread count.
pub open spec fn worker_warning() -> Seq<char> {
    "Worker thread count changed. This will only affect new connections."@
}

/// The warnings of the first `n` virtual hosts of `old` against `new`.
pub open spec fn ssl_warnings(
    old: Seq<(Seq<char>, VirtualHostConfig)>,
    new: Seq<(Seq<char>, VirtualHostConfig)>,
    n: int,
) -> Seq<Seq<char>>
    decreases n,
{
    if n <= 0 {
        Seq::empty()
    } else {
        let prev = ssl_warnings(old, new, n - 1);
        let (name, v) = old[n - 1];
        if exists|j: int|
            first_named(new, name, j) && !same_ssl(v.ssl, #[trigger] new[j].1.ssl) {
            prev.push(ssl_warning(name))
        } else {
            prev
        }
    }
}

fn same_text_opt(a: &Option<String>, b: &Option<String>) -> (r: bool)
    ensures
        r == (opt_text(*a) == opt_text(*b)),
{
    match (a, b) {
        (None, None) => true,
        (Some(x), Some(y)) => *x == *y,
        _ => false,
    }
}

fn same_texts(a: &Vec<String>, b: &Vec<String>) -> (r: bool)
    ensures
        r == (texts(a@) == texts(b@)),
{
    if a.len() != b.len() {
        assert(texts(a@).len() != texts(b@).len());
        return false;
    }
    let mut i: usize = 0;
    while i < a.len()
        invariant
            a@.len() == b@.len(),
            i <= a@.len(),
            forall|j: int| 0 <= j < i ==> #[trigger] a@[j]@ == b@[j]@,
        decreases a@.len() - i,
    {
        if a[i] != b[i] {
            assert(texts(a@)[i as int] != texts(b@)[i as int]);
            return false;
        }
        i += 1;
    }
    assert(texts(a@) =~= texts(b@));
    true
}

fn ssl_equal(a: &Option<SslConfig>, b: &Option<SslConfig>) -> (r: bool)
    ensures
        r == same_ssl(*a, *b),
{
    match (a, b) {
        (None, None) => true,
        (Some(x), Some(y)) => {
            x.certificate == y.certificate && x.private_key == y.private_key && same_text_opt(
                &x.certificate_chain,
                &y.certificate_chain,
            ) && same_texts(&x.protocols, &y.protocols) && same_text_opt(&x.ciphers, &y.ciphers)
                && x.auto_generate_self_signed == y.auto_generate_self_signed
        },
        _ => false,
    }
}

impl Config {
    /// Checks the limits and pools: connections and worker threads must be
    /// positive and every upstream must list a server, checked in that order.
    /// `validate_addresses` checks the listen addresses first, then these.
    pub fn validate(&self) -> (r: Result<(), ConfigError>)
        ensures
            limits_checked(*self, r),
    {
        if self.server.max_connections == 0 {
            return Err(ConfigError::NoConnections);
        }
        if let Some(n) = self.server.worker_threads {
            if n == 0 {
                return Err(ConfigError::NoWorkerThreads);
            }
        }
        let mut q: usize = 0;
        while q < self.upstream.len()
            invariant
                self.server.max_connections > 0,
                self.server.worker_threads != Some(0usize),
                q <= self.upstream@.len(),
                forall|m: int| 0 <= m < q ==> (#[trigger] self.upstream@[m]).1.servers@.len() > 0,
            decreases self.upstream@.len() - q,
        {
            let (name, u) = self.upstream.entry(q);
            if u.servers.len() == 0 {
                return Err(ConfigError::EmptyUpstream(name.clone()));
            }
            q += 1;
        }
        Ok(())
    }

    /// The whole check: first the listen addresses, where `parsed[i]` tells
    /// whether address `i` parsed as a socket address (a missing flag counts as
    /// not parsed), then the limits and pools as `validate` checks them.
    pub fn validate_addresses(&self, parsed: &Vec<bool>) -> (r: Result<(), ConfigError>)
        ensures
            (exists|i: int| 0 <= i < self.server.listen@.len() && !listen_parsed(parsed@, i)) ==> (r matches Err(
                ConfigError::InvalidListen(a),
            ) && exists|i: int|
                0 <= i < self.server.listen@.len() && !listen_parsed(parsed@, i) && a@ == (
                #[trigger] self.server.listen@[i])@ && forall|j: int|
                    0 <= j < i ==> listen_parsed(parsed@, j)),
            (forall|i: int| 0 <= i < self.server.listen@.len() ==> listen_parsed(parsed@, i)) ==> limits_checked(
                *self,
                r,
            ),
    {
        let listen = &self.server.listen;
        let mut i: usize = 0;
        while i < listen.len()
            invariant
                listen@ == self.server.listen@,
                i <= listen@.len(),
                forall|j: int| 0 <= j < i ==> listen_parsed(parsed@, j),
            decreases listen@.len() - i,
        {
            if i >= parsed.len() || !parsed[i] {
                let r = Err(ConfigError::InvalidListen(listen[i].clone()));
                assert(!listen_parsed(parsed@, i as int));
                return r;
            }
            i += 1;
        }
        self.validate()
    }

    /// Whether `new_config` can replace this configuration without a restart:
    /// not when the listen addresses differ. Otherwise the warnings: one per
    /// virtual host, in order, whose TLS settings change, then one if the worker
    /// thread count changes.
    pub fn can_hot_reload(&self, new_config: &Config) -> (r: Result<Vec<String>, ConfigError>)
        ensures
            texts(self.server.listen@) != texts(new_config.server.listen@) ==> r == Err::<
                Vec<String>,
                ConfigError,
            >(ConfigError::ListenChanged),
            texts(self.server.listen@) == texts(new_config.server.listen@) ==> (r matches Ok(w) && texts(w@) == {
                let s = ssl_warnings(
                    self.virtual_hosts@,
                    new_config.virtual_hosts@,
                    self.virtual_hosts@.len() as int,
                );
                if self.server.worker_threads != new_config.server.worker_threads {
                    s.push(worker_warning())
                } else {
                    s
                }
            }),
    {
        if !same_texts(&self.server.listen, &new_config.server.listen) {
            return Err(ConfigError::ListenChanged);
        }
        let mut warnings: Vec<String> = Vec::new();
        let mut i: usize = 0;
        while i < self.virtual_hosts.len()
            invariant
                i <= self.virtual_hosts@.len(),
                texts(warnings@) == ssl_warnings(self.virtual_hosts@, new_config.virtual_hosts@, i as int),
            decreases self.virtual_hosts@.len() - i,
        {
            let (name, old_vhost) = self.virtual_hosts.entry(i);
            let ghost before = warnings@;
            match new_config.virtual_hosts.position(name.as_str()) {
                Some(j) => {
                    let (_, new_vhost) = new_config.virtual_hosts.entry(j);
                    if !ssl_equal(&old_vhost.ssl, &new_vhost.ssl) {
                        let mut w = "SSL configuration changed for virtual host '".to_string();
                        w.append(name.as_str());
                        w.append("'. New connections will use new certificates.");
                        warnings.push(w);
                        assert(texts(warnings@) =~= texts(before).push(ssl_warning(name@)));
                    } else {
                        assert forall|k: int|
                            first_named(new_config.virtual_hosts@, name@, k) implies same_ssl(
                            old_vhost.ssl,
                            #[trigger] new_config.virtual_hosts@[k].1.ssl,
                        ) by {
                            if k < j {
                                assert(new_config.virtual_hosts@[k].0 != name@);
                            } else if k > j {
                                assert(new_config.virtual_hosts@[j as int].0 != name@);
                            }
                        }
                    }
                },
                None => {},
            }
            i += 1;
        }
        if self.server.worker_threads != new_config.server.worker_threads {
            let ghost before = warnings@;
            warnings.push("Worker thread count changed. This will only affect new connections.".to_string());
            assert(texts(warnings@) =~= texts(before).push(worker_warning()));
        }
        Ok(warnings)
    }
}

} // verus!
