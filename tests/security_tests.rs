use rustweb::config::{Config, SecurityConfig};
use rustweb::named_map::NamedMap;
use rustweb::response::ResponseBuilder;
use rustweb::security::SecurityHandler;

fn create_test_config() -> Config {
    let mut config = Config::default();
    config.security.enable_rate_limiting = true;
    config.security.rate_limit_requests_per_second = 10;
    config.security.rate_limit_burst = 20;
    config
}

fn header<'a>(r: &'a rustweb::response::HttpResponse, name: &str) -> Option<&'a String> {
    r.headers.get(name)
}

#[test]
fn test_security_handler_creation() {
    let config = create_test_config();
    let handler = SecurityHandler::new(config.security);
    assert!(handler.rate_limiter.is_some());
}

#[test]
fn test_custom_allowed_methods() {
    let mut config = create_test_config();
    config.security.allowed_methods = vec!["GET".to_string(), "POST".to_string()];

    let handler = SecurityHandler::new(config.security);

    assert!(handler.check_method("GET"));
    assert!(handler.check_method("POST"));
    assert!(!handler.check_method("PUT"));
    assert!(!handler.check_method("DELETE"));
}

#[test]
fn test_allowed_methods() {
    let handler = SecurityHandler::new(create_test_config().security);
    for m in ["GET", "POST", "HEAD", "PUT", "DELETE"] {
        assert!(handler.check_method(m));
    }
    assert!(!handler.check_method("OPTIONS"));
    assert!(!handler.check_method("TRACE"));
    assert!(!handler.check_method("CONNECT"));
}

#[test]
fn test_rate_limiting_enabled() {
    let config = create_test_config();
    let handler = SecurityHandler::new(config.security);
    let client_addr = "127.0.0.1:12345";
    for _ in 0..5 {
        let allowed = handler.check_rate_limit(client_addr);
        assert!(allowed, "Request should be allowed within rate limit");
    }
}

#[test]
fn test_rate_limiting_disabled() {
    let mut config = create_test_config();
    config.security.enable_rate_limiting = false;
    let handler = SecurityHandler::new(config.security);
    let client_addr = "127.0.0.1:12345";
    for _ in 0..100 {
        let allowed = handler.check_rate_limit(client_addr);
        assert!(allowed, "Request should be allowed when rate limiting is disabled");
    }
}

#[test]
fn test_rate_limiting_different_clients() {
    let config = create_test_config();
    let handler = SecurityHandler::new(config.security);
    let client1 = "127.0.0.1:12345";
    let client2 = "127.0.0.2:12346";
    for _ in 0..5 {
        let allowed1 = handler.check_rate_limit(client1);
        let allowed2 = handler.check_rate_limit(client2);
        assert!(allowed1, "Client 1 should be allowed");
        assert!(allowed2, "Client 2 should be allowed");
    }
}

#[test]
fn bucket_of_five_rejects_the_sixth_request() {
    let mut config = SecurityConfig::default();
    config.rate_limit_requests_per_second = 1;
    config.rate_limit_burst = 5;
    let handler = SecurityHandler::new(config);
    for _ in 0..5 {
        assert!(handler.check_rate_limit("10.0.0.1:1000"));
    }
    assert!(!handler.check_rate_limit("10.0.0.1:1000"));
    assert!(handler.check_rate_limit("10.0.0.2:1000"));
}

#[test]
fn test_add_security_headers() {
    let config = create_test_config();
    let handler = SecurityHandler::new(config.security);
    let response = ResponseBuilder::new(200).body(b"test".to_vec()).build();
    let r = handler.add_security_headers(response);

    assert!(r.headers.contains_key("x-frame-options"));
    assert!(r.headers.contains_key("x-content-type-options"));
    assert!(r.headers.contains_key("x-xss-protection"));
    assert!(r.headers.contains_key("strict-transport-security"));
    assert_eq!(header(&r, "x-frame-options").unwrap(), "DENY");
    assert_eq!(header(&r, "x-content-type-options").unwrap(), "nosniff");
    assert_eq!(header(&r, "server").unwrap(), "RustWeb/0.1.0");
    assert_eq!(r.body, b"test".to_vec());
}

#[test]
fn test_custom_security_headers() {
    let mut config = create_test_config();
    let mut custom_headers = NamedMap::new();
    custom_headers.insert("Custom-Header".to_string(), "CustomValue".to_string());
    custom_headers.insert("X-Frame-Options".to_string(), "SAMEORIGIN".to_string());
    config.security.security_headers = custom_headers;

    let handler = SecurityHandler::new(config.security);
    let response = ResponseBuilder::new(200).body(b"test".to_vec()).build();
    let r = handler.add_security_headers(response);

    assert_eq!(header(&r, "custom-header").unwrap(), "CustomValue");
    assert_eq!(header(&r, "x-frame-options").unwrap(), "SAMEORIGIN");
}

#[test]
fn invalid_configured_headers_are_skipped_and_server_always_set() {
    let mut config = create_test_config();
    let mut h = NamedMap::new();
    h.insert("Bad Name".to_string(), "x".to_string());
    h.insert("X-Ok".to_string(), "bad\nvalue".to_string());
    h.insert("Server".to_string(), "Other".to_string());
    config.security.security_headers = h;
    let handler = SecurityHandler::new(config.security);
    let r = handler.add_security_headers(ResponseBuilder::new(404).build());
    assert_eq!(r.status, 404);
    assert_eq!(r.headers.len(), 1);
    assert_eq!(header(&r, "server").unwrap(), "RustWeb/0.1.0");
}

#[test]
fn test_validate_request_size() {
    let mut config = create_test_config();
    config.security.max_request_size = 1024;
    let handler = SecurityHandler::new(config.security);

    assert!(handler.validate_request_size(Some(500)));
    assert!(handler.validate_request_size(Some(1024)));
    assert!(handler.validate_request_size(None));

    assert!(!handler.validate_request_size(Some(2048)));
    assert!(!handler.validate_request_size(Some(10000)));
}
