use rustweb::config::{Config, LoadBalancingMethod, UpstreamConfig, VirtualHostConfig};
use rustweb::named_map::NamedMap;
use rustweb::pipeline::{Action, RequestHandler};
use rustweb::proxy::ProxyHandler;
use rustweb::static_files::{PathKind, StaticFileHandler, StaticStep};

fn site(root: Option<&str>, proxy: Option<&str>) -> VirtualHostConfig {
    VirtualHostConfig {
        server_name: vec!["example.com".to_string()],
        document_root: root.map(|s| s.to_string()),
        index_files: vec!["index.html".to_string()],
        proxy_pass: proxy.map(|s| s.to_string()),
        ssl: None,
        locations: NamedMap::new(),
    }
}

fn config() -> Config {
    let mut config = Config::default();
    config.virtual_hosts.insert("example.com".to_string(), site(Some("/srv/www"), None));
    config.virtual_hosts.insert("api.example.com".to_string(), site(None, Some("backend")));
    config.upstream.insert(
        "backend".to_string(),
        UpstreamConfig {
            servers: vec!["http://10.0.0.1:8080".to_string()],
            load_balancing: LoadBalancingMethod::RoundRobin,
            health_check: None,
            connection_timeout: 1000,
            read_timeout: 2500,
            max_connections: None,
        },
    );
    config
}

fn pipeline(c: Config) -> (RequestHandler, ProxyHandler) {
    let proxy = ProxyHandler::new(&c, 0);
    (RequestHandler::new(c), proxy)
}

fn status(a: &Action) -> Option<u16> {
    match a {
        Action::Respond(r) => Some(r.status),
        _ => None,
    }
}

#[test]
fn disallowed_method_is_405_whatever_the_route() {
    let (h, mut proxy) = pipeline(config());
    let a = h.process_request(&mut proxy, "TRACE", "1.2.3.4:5", Some("api.example.com"), "/", 0);
    assert_eq!(status(&a), Some(405));
    let a = h.process_request(&mut proxy, "OPTIONS", "1.2.3.4:5", Some("example.com:8080"), "/", 0);
    assert_eq!(status(&a), Some(405));
}

#[test]
fn static_route_serves_the_index_file() {
    let (h, mut proxy) = pipeline(config());
    let a = h.process_request(&mut proxy, "GET", "1.2.3.4:5", Some("example.com:8080"), "/", 0);
    let (root, index) = match a {
        Action::Serve { root, index_files } => (root, index_files),
        other => panic!("unexpected {:?}", other),
    };
    assert_eq!(root, "/srv/www");
    let files = StaticFileHandler::new();
    let rel = files.check_request("GET", "/").unwrap();
    assert_eq!(rel, "");
    let step = files.resolve(
        false,
        &root,
        true,
        PathKind::Directory,
        &index,
        &vec![PathKind::File { size: 11, mtime: 1000 }],
        None,
        None,
    );
    let (path, size, mtime) = match step {
        StaticStep::Read { path, size, mtime } => (path, size, mtime),
        other => panic!("unexpected {:?}", other),
    };
    assert_eq!(path, "/srv/www/index.html");
    let r = files.file_read(&path, size, mtime, Some(b"hello world".to_vec()));
    assert_eq!(r.status, 200);
    assert_eq!(r.body, b"hello world".to_vec());
    assert_eq!(r.headers.get("content-type").unwrap(), "text/html");
}

#[test]
fn proxy_route_forwards_and_failure_gives_502() {
    let (h, mut proxy) = pipeline(config());
    let a = h.process_request(&mut proxy, "GET", "1.2.3.4:5", Some("api.example.com"), "/x", 0);
    let (pool, server) = match a {
        Action::Forward { pool, server, url, timeout_ms } => {
            assert_eq!(url, "http://10.0.0.1:8080");
            assert_eq!(timeout_ms, 2500);
            (pool, server)
        },
        other => panic!("unexpected {:?}", other),
    };
    let r = RequestHandler::complete_forward(&mut proxy, pool, server, None);
    assert_eq!(r.status, 502);
    let a = h.process_request(&mut proxy, "GET", "1.2.3.4:5", Some("api.example.com"), "/x", 0);
    assert_eq!(status(&a), Some(502));
}

#[test]
fn unknown_host_is_404() {
    let (h, mut proxy) = pipeline(config());
    let a = h.process_request(&mut proxy, "GET", "1.2.3.4:5", Some("nowhere.org"), "/", 0);
    assert_eq!(status(&a), Some(404));
    assert_eq!(RequestHandler::get_host_from_request(None), "default");
    assert_eq!(RequestHandler::get_host_from_request(Some("a.b:81")), "a.b");
}

#[test]
fn rate_limited_client_gets_429() {
    let mut c = config();
    c.security.rate_limit_requests_per_second = 1;
    c.security.rate_limit_burst = 1;
    let (h, mut proxy) = pipeline(c);
    let a = h.process_request(&mut proxy, "GET", "9.9.9.9:1", Some("example.com"), "/", 0);
    assert!(matches!(a, Action::Serve { .. }));
    let a = h.process_request(&mut proxy, "GET", "9.9.9.9:1", Some("example.com"), "/", 0);
    assert_eq!(status(&a), Some(429));
}

#[test]
fn responses_leave_with_headers_and_compression() {
    let (h, _proxy) = pipeline(config());
    let files = StaticFileHandler::new();
    let body = "<p>x</p>".repeat(400).into_bytes();
    let r = files.file_response("/srv/www/index.html", body.len() as u64, 0, Some(body));
    let out = h.finish_response(r, "gzip");
    assert_eq!(out.status, 200);
    assert_eq!(out.headers.get("server").unwrap(), "RustWeb/0.1.0");
    assert_eq!(out.headers.get("x-frame-options").unwrap(), "DENY");
    assert_eq!(out.headers.get("content-encoding").unwrap(), "gzip");
}

#[test]
fn refused_token_gives_429_without_routing() {
    let (h, mut proxy) = pipeline(config());
    let a = h.after_gate(&mut proxy, false, Some("api.example.com"), "/x", 0);
    match a {
        Action::Respond(r) => {
            assert_eq!(r.status, 429);
            assert_eq!(r.headers.get("retry-after").unwrap(), "60");
        },
        other => panic!("unexpected {:?}", other),
    }
    assert_eq!(proxy.pools[0].servers[0].connections, 0);
    let a = h.after_gate(&mut proxy, true, Some("api.example.com"), "/x", 0);
    assert!(matches!(a, Action::Forward { .. }));
    assert_eq!(proxy.pools[0].servers[0].connections, 1);
}
