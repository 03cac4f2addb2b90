use rustweb::http2::{get_content_type, Http2PushHandler};
use rustweb::logging::{AccessLogFormat, LogRotator};
use rustweb::protocol::{is_https_port, select_protocol, Protocol, UnsupportedProtocol};
use rustweb::response::ErrorResponse;
use rustweb::ssl_cert_gen::{CertificateGenerator, CertificatePlan};

#[test]
fn alpn_selects_the_protocol() {
    assert_eq!(select_protocol(Some(b"h2")), Ok(Protocol::Http2));
    assert_eq!(select_protocol(Some(b"http/1.1")), Ok(Protocol::Http1));
    assert_eq!(select_protocol(None), Ok(Protocol::Http1));
    assert_eq!(select_protocol(Some(b"spdy/3")), Err(UnsupportedProtocol));
    assert!(is_https_port(443) && is_https_port(8443) && !is_https_port(8080));
}

#[test]
fn content_types_by_extension() {
    assert_eq!(get_content_type("./www/index.html"), "text/html; charset=utf-8");
    assert_eq!(get_content_type("a.jpeg"), "image/jpeg");
    assert_eq!(get_content_type("a.js"), "application/javascript");
    assert_eq!(get_content_type("README"), "application/octet-stream");
}

#[test]
fn push_resources_accumulate() {
    let mut p = Http2PushHandler::default();
    p.add_push_resource("/style.css".to_string());
    p.add_push_resource("/app.js".to_string());
    assert_eq!(p.push_resources, vec!["/style.css".to_string(), "/app.js".to_string()]);
}

#[test]
fn log_formats_and_rotation() {
    assert_eq!(AccessLogFormat::from_name("json"), AccessLogFormat::Json);
    assert_eq!(AccessLogFormat::from_name("common"), AccessLogFormat::CommonLog);
    assert_eq!(AccessLogFormat::from_name("combined"), AccessLogFormat::Combined);
    assert_eq!(AccessLogFormat::from_name("other"), AccessLogFormat::Combined);
    let r = LogRotator::new("/var/log/a.log".to_string(), 100, 3);
    assert!(r.should_rotate(101) && !r.should_rotate(100));
    let moves = r.rotation_moves();
    let expected: Vec<(String, String)> = vec![
        ("/var/log/a.log.2".to_string(), "/var/log/a.log.3".to_string()),
        ("/var/log/a.log.1".to_string(), "/var/log/a.log.2".to_string()),
        ("/var/log/a.log".to_string(), "/var/log/a.log.1".to_string()),
    ];
    assert_eq!(moves, expected);
}

#[test]
fn certificate_plans() {
    assert_eq!(CertificateGenerator::certificate_plan(true, true, false), CertificatePlan::Ready);
    assert_eq!(CertificateGenerator::certificate_plan(true, false, true), CertificatePlan::Generate);
    assert_eq!(CertificateGenerator::certificate_plan(false, true, false), CertificatePlan::Missing);
}

#[test]
fn error_pages() {
    let r = ErrorResponse::too_many_requests().build();
    assert_eq!(r.status, 429);
    assert_eq!(r.headers.get("retry-after").unwrap(), "60");
    assert_eq!(r.headers.get("content-type").unwrap(), "text/html");
    for (b, s) in [
        (ErrorResponse::bad_request(), 400),
        (ErrorResponse::forbidden(), 403),
        (ErrorResponse::not_found(), 404),
        (ErrorResponse::method_not_allowed(), 405),
        (ErrorResponse::internal_server_error(), 500),
        (ErrorResponse::bad_gateway(), 502),
        (ErrorResponse::service_unavailable(), 503),
        (ErrorResponse::gateway_timeout(), 504),
    ] {
        let r = b.build();
        assert_eq!(r.status, s);
        assert!(String::from_utf8(r.body).unwrap().contains(&s.to_string()));
    }
}
