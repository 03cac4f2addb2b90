use rustweb::config::{Config, HealthCheckConfig, LoadBalancingMethod, UpstreamConfig};
use rustweb::forward::{forward_headers, forward_uri};
use rustweb::proxy::{ProxyError, ProxyHandler};

fn upstream(n: usize, method: LoadBalancingMethod, health: bool) -> UpstreamConfig {
    UpstreamConfig {
        servers: (0..n).map(|i| format!("http://10.0.0.{}:80", i + 1)).collect(),
        load_balancing: method,
        health_check: if health {
            Some(HealthCheckConfig {
                path: "/health".to_string(),
                interval: 30,
                timeout: 500,
                healthy_threshold: 1,
                unhealthy_threshold: 1,
            })
        } else {
            None
        },
        connection_timeout: 1000,
        read_timeout: 3000,
        max_connections: None,
    }
}

fn handler(n: usize, method: LoadBalancingMethod) -> ProxyHandler {
    let mut config = Config::default();
    config.upstream.insert("pool".to_string(), upstream(n, method, true));
    ProxyHandler::new(&config, 100)
}

#[test]
fn round_robin_visits_each_server_once_per_cycle() {
    let mut h = handler(3, LoadBalancingMethod::RoundRobin);
    let picks: Vec<usize> = (0..4).map(|_| h.pools[0].select_server(0).unwrap()).collect();
    assert_eq!(picks, vec![0, 1, 2, 0]);
}

#[test]
fn ip_hash_picks_as_round_robin() {
    let mut h = handler(2, LoadBalancingMethod::IpHash);
    let picks: Vec<usize> = (0..3).map(|_| h.pools[0].select_server(7).unwrap()).collect();
    assert_eq!(picks, vec![0, 1, 0]);
}

#[test]
fn least_connections_takes_the_first_least_loaded() {
    let mut h = handler(3, LoadBalancingMethod::LeastConnections);
    h.pools[0].servers[0].connections = 2;
    h.pools[0].servers[1].connections = 1;
    h.pools[0].servers[2].connections = 1;
    assert_eq!(h.pools[0].select_server(0), Some(1));
    h.pools[0].servers[1].healthy = false;
    assert_eq!(h.pools[0].select_server(0), Some(2));
}

#[test]
fn random_uses_the_entropy_modulo_healthy_count() {
    let mut h = handler(3, LoadBalancingMethod::Random);
    assert_eq!(h.pools[0].select_server(4), Some(1));
    h.pools[0].servers[0].healthy = false;
    assert_eq!(h.pools[0].select_server(4), Some(1));
    assert_eq!(h.pools[0].select_server(5), Some(2));
}

#[test]
fn failed_server_is_skipped_until_a_probe_succeeds() {
    let mut h = handler(2, LoadBalancingMethod::RoundRobin);
    let (p, s) = h.begin_forward("pool", 0).unwrap();
    assert_eq!((p, s), (0, 0));
    assert_eq!(h.pools[0].servers[0].connections, 1);
    h.finish_forward(p, s, false);
    assert!(!h.pools[0].servers[0].healthy);
    assert_eq!(h.pools[0].servers[0].connections, 0);
    for _ in 0..4 {
        let (_, s) = h.begin_forward("pool", 0).unwrap();
        assert_eq!(s, 1);
        h.finish_forward(0, s, true);
    }
    h.record_probe(0, 0, Some(302));
    assert!(h.pools[0].servers[0].healthy);
    let picked: Vec<usize> = (0..2).map(|_| h.begin_forward("pool", 0).unwrap().1).collect();
    assert!(picked.contains(&0));
}

#[test]
fn forward_errors() {
    let mut h = handler(1, LoadBalancingMethod::RoundRobin);
    assert_eq!(h.begin_forward("missing", 0), Err(ProxyError::UnknownUpstream));
    h.record_probe(0, 0, None);
    assert!(!h.pools[0].servers[0].healthy);
    h.record_probe(0, 0, Some(204));
    assert!(h.pools[0].servers[0].healthy);
    h.record_probe(0, 0, Some(500));
    assert!(!h.pools[0].servers[0].healthy);
    assert_eq!(h.begin_forward("pool", 0), Err(ProxyError::NoHealthyServers));
    assert_eq!(ProxyError::NoHealthyServers.status(), 502);
}

#[test]
fn health_sweep_probes_due_servers_only() {
    let mut h = handler(2, LoadBalancingMethod::RoundRobin);
    assert!(h.due_probes(110).is_empty());
    assert_eq!(h.due_probes(130), vec![(0, 0), (0, 1)]);
    assert_eq!(h.pools[0].servers[0].last_check, 130);
    assert!(h.due_probes(140).is_empty());

    let mut config = Config::default();
    config.upstream.insert("plain".to_string(), upstream(1, LoadBalancingMethod::RoundRobin, false));
    let mut plain = ProxyHandler::new(&config, 0);
    assert!(plain.due_probes(1000).is_empty());
}

#[test]
fn forward_target_keeps_path_and_query() {
    assert_eq!(
        forward_uri("http://127.0.0.1:3000", "/api/x?y=1"),
        Some("http://127.0.0.1:3000/api/x?y=1".to_string())
    );
    assert_eq!(forward_uri("https://backend:8443/base", "/p"), Some("https://backend:8443/p".to_string()));
    assert_eq!(forward_uri("/only/a/path", "/p"), None);
}

#[test]
fn hop_by_hop_headers_are_dropped() {
    let headers = vec![
        ("host".to_string(), "example.com".to_string()),
        ("connection".to_string(), "keep-alive".to_string()),
        ("upgrade".to_string(), "h2c".to_string()),
        ("accept".to_string(), "*/*".to_string()),
    ];
    let out = forward_headers(&headers, "192.0.2.1");
    assert_eq!(
        out,
        vec![
            ("host".to_string(), "example.com".to_string()),
            ("accept".to_string(), "*/*".to_string()),
            ("x-forwarded-for".to_string(), "192.0.2.1".to_string()),
        ]
    );
    let with_xff = vec![("x-forwarded-for".to_string(), "198.51.100.7".to_string())];
    assert_eq!(forward_headers(&with_xff, "192.0.2.1"), with_xff);
}
