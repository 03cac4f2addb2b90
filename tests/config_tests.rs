use rustweb::config::{
    CompressionConfig, Config, ConfigError, HealthCheckConfig, LoadBalancingMethod, SecurityConfig,
    SslConfig, UpstreamConfig, VirtualHostConfig,
};
use rustweb::named_map::NamedMap;

#[test]
fn tests_test_config_defaults() {
    let config = Config::default();
    assert_eq!(config.server.listen, vec!["0.0.0.0:8080"]);
    assert_eq!(config.server.max_connections, 10000);
    assert!(config.security.enable_rate_limiting);
    assert_eq!(config.security.rate_limit_requests_per_second, 100);
}

#[test]
fn test_config_validation_valid() {
    let config = Config::default();
    assert!(config.validate().is_ok());
}

#[test]
fn test_config_validation_invalid_max_connections() {
    let mut config = Config::default();
    config.server.max_connections = 0;
    assert!(config.validate().is_err());
}

#[test]
fn test_config_validation_invalid_worker_threads() {
    let mut config = Config::default();
    config.server.worker_threads = Some(0);
    assert!(config.validate().is_err());
}

#[test]
fn test_config_validation_empty_upstream() {
    let mut config = Config::default();
    config.upstream.insert(
        "test".to_string(),
        UpstreamConfig {
            servers: vec![],
            load_balancing: LoadBalancingMethod::RoundRobin,
            health_check: None,
            connection_timeout: 5000,
            read_timeout: 30000,
            max_connections: None,
        },
    );
    assert!(config.validate().is_err());
}

#[test]
fn test_default_with_host_port() {
    let config = Config::default_with_host_port("192.168.1.1", 9090);
    assert_eq!(config.server.listen, vec!["192.168.1.1:9090"]);
}

#[test]
fn test_load_balancing_methods() {
    let methods = vec![
        LoadBalancingMethod::RoundRobin,
        LoadBalancingMethod::LeastConnections,
        LoadBalancingMethod::IpHash,
        LoadBalancingMethod::Random,
    ];

    for method in methods {
        let upstream = UpstreamConfig {
            servers: vec!["http://127.0.0.1:3000".to_string()],
            load_balancing: method,
            health_check: None,
            connection_timeout: 5000,
            read_timeout: 30000,
            max_connections: None,
        };
        assert!(!upstream.servers.is_empty());
    }
}

#[test]
fn test_ssl_config_equality() {
    let ssl_config1 = SslConfig {
        certificate: "cert.pem".to_string(),
        private_key: "key.pem".to_string(),
        certificate_chain: None,
        protocols: vec!["TLSv1.2".to_string(), "TLSv1.3".to_string()],
        ciphers: None,
        auto_generate_self_signed: false,
    };

    let ssl_config2 = SslConfig {
        certificate: "cert.pem".to_string(),
        private_key: "key.pem".to_string(),
        certificate_chain: None,
        protocols: vec!["TLSv1.2".to_string(), "TLSv1.3".to_string()],
        ciphers: None,
        auto_generate_self_signed: false,
    };

    assert_eq!(ssl_config1, ssl_config2);
}

#[test]
fn test_virtual_host_config_creation() {
    let vhost = VirtualHostConfig {
        server_name: vec!["example.com".to_string(), "www.example.com".to_string()],
        document_root: Some("/var/www/example".to_string()),
        index_files: vec!["index.html".to_string(), "index.htm".to_string()],
        proxy_pass: None,
        ssl: None,
        locations: NamedMap::new(),
    };

    assert_eq!(vhost.server_name.len(), 2);
    assert!(vhost.document_root.is_some());
    assert_eq!(vhost.index_files.len(), 2);
    assert!(vhost.locations.is_empty());
}

#[test]
fn test_health_check_config() {
    let health_check = HealthCheckConfig {
        path: "/health".to_string(),
        interval: 30,
        timeout: 5,
        healthy_threshold: 2,
        unhealthy_threshold: 3,
    };

    assert_eq!(health_check.path, "/health");
    assert_eq!(health_check.interval, 30);
    assert_eq!(health_check.healthy_threshold, 2);
}

#[test]
fn test_compression_config_defaults() {
    let compression = CompressionConfig::default();

    assert!(compression.enable_gzip);
    assert!(compression.enable_brotli);
    assert!(!compression.enable_zstd);
    assert_eq!(compression.compression_level, 6);
    assert_eq!(compression.min_compress_size, 1024);
    assert!(compression.compress_types.contains(&"text/html".to_string()));
    assert!(compression.compress_types.contains(&"application/json".to_string()));
}

#[test]
fn tests_test_security_config_defaults() {
    let security = SecurityConfig::default();

    assert!(security.enable_rate_limiting);
    assert_eq!(security.rate_limit_requests_per_second, 100);
    assert_eq!(security.rate_limit_burst, 200);
    assert_eq!(security.max_request_size, 10 * 1024 * 1024);

    let expected_methods = vec!["GET", "POST", "HEAD", "PUT", "DELETE"];
    for method in expected_methods {
        assert!(security.allowed_methods.contains(&method.to_string()));
    }

    assert!(security.security_headers.contains_key("X-Frame-Options"));
    assert!(security.security_headers.contains_key("X-Content-Type-Options"));
    assert!(security.security_headers.contains_key("X-XSS-Protection"));
    assert!(security.security_headers.contains_key("Strict-Transport-Security"));
}

#[test]
fn validate_reports_each_error() {
    let mut config = Config::default();
    config.server.max_connections = 0;
    assert_eq!(config.validate(), Err(ConfigError::NoConnections));

    let mut config = Config::default();
    config.server.worker_threads = Some(0);
    assert_eq!(config.validate(), Err(ConfigError::NoWorkerThreads));

    let mut config = Config::default();
    config.upstream.insert(
        "api".to_string(),
        UpstreamConfig {
            servers: vec![],
            load_balancing: LoadBalancingMethod::RoundRobin,
            health_check: None,
            connection_timeout: 5000,
            read_timeout: 30000,
            max_connections: None,
        },
    );
    assert_eq!(config.validate(), Err(ConfigError::EmptyUpstream("api".to_string())));
}

fn vhost_with_ssl(cert: &str) -> VirtualHostConfig {
    VirtualHostConfig {
        server_name: vec!["example.com".to_string()],
        document_root: None,
        index_files: vec![],
        proxy_pass: None,
        ssl: Some(SslConfig {
            certificate: cert.to_string(),
            private_key: "key.pem".to_string(),
            certificate_chain: None,
            protocols: vec![],
            ciphers: None,
            auto_generate_self_signed: false,
        }),
        locations: NamedMap::new(),
    }
}

#[test]
fn hot_reload_refuses_new_listen_addresses() {
    let old = Config::default();
    let new = Config::default_with_host_port("127.0.0.1", 9000);
    assert_eq!(old.can_hot_reload(&new), Err(ConfigError::ListenChanged));
}

#[test]
fn hot_reload_warns_on_tls_and_workers() {
    let mut old = Config::default();
    old.virtual_hosts.insert("example.com".to_string(), vhost_with_ssl("a.pem"));
    let mut new = Config::default();
    new.virtual_hosts.insert("example.com".to_string(), vhost_with_ssl("b.pem"));
    new.server.worker_threads = Some(4);
    let warnings = old.can_hot_reload(&new).unwrap();
    assert_eq!(
        warnings,
        vec![
            "SSL configuration changed for virtual host 'example.com'. New connections will use new certificates."
                .to_string(),
            "Worker thread count changed. This will only affect new connections.".to_string(),
        ]
    );
    let same = old.clone();
    assert_eq!(old.can_hot_reload(&same).unwrap(), Vec::<String>::new());
}

#[test]
fn named_map_replaces_in_place() {
    let mut m = NamedMap::new();
    m.insert("a".to_string(), 1u32);
    m.insert("b".to_string(), 2u32);
    m.insert("a".to_string(), 3u32);
    assert_eq!(m.len(), 2);
    assert_eq!(m.get("a"), Some(&3));
    assert_eq!(m.position("b"), Some(1));
    assert_eq!(m.get("c"), None);
}

#[test]
fn validate_checks_listen_addresses_first() {
    let mut config = Config::default();
    config.server.listen = vec!["0.0.0.0:80".to_string(), "bad".to_string()];
    config.server.max_connections = 0;
    assert_eq!(
        config.validate_addresses(&vec![true, false]),
        Err(ConfigError::InvalidListen("bad".to_string()))
    );
    assert_eq!(config.validate_addresses(&vec![true, true]), Err(ConfigError::NoConnections));
    assert_eq!(Config::default().validate_addresses(&vec![true]), Ok(()));
    assert_eq!(
        Config::default().validate_addresses(&vec![]),
        Err(ConfigError::InvalidListen("0.0.0.0:8080".to_string()))
    );
}

#[test]
fn host_port_default_keeps_other_defaults() {
    let c = Config::default_with_host_port("10.1.2.3", 81);
    assert_eq!(c.server.listen, vec!["10.1.2.3:81"]);
    assert_eq!(c.server.keep_alive_timeout, 65);
    assert_eq!(c.logging.log_level, "info");
    assert_eq!(c.compression.min_compress_size, 1024);
    assert_eq!(c.security.allowed_methods.len(), 5);
}
