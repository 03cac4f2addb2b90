use rustweb::compression::CompressionHandler;
use rustweb::config::CompressionConfig;
use rustweb::response::ResponseBuilder;

fn page(len: usize) -> Vec<u8> {
    "<p>hello</p>".repeat(len / 12 + 1).into_bytes()[..len].to_vec()
}

#[test]
fn small_bodies_are_never_compressed() {
    let h = CompressionHandler::new(CompressionConfig::default());
    assert_eq!(h.compress_body(200, "text/html", "br, gzip, zstd", &page(1023)), None);
    let r = h.compress_response_with_encoding(
        ResponseBuilder::new(200).header("content-type", "text/html").body(page(100)).build(),
        "br, gzip, zstd",
    );
    assert_eq!(r.body, page(100));
    assert!(r.headers.get("content-encoding").is_none());
}

#[test]
fn excluded_types_and_error_statuses_are_never_compressed() {
    let h = CompressionHandler::new(CompressionConfig::default());
    assert!(!h.should_compress(200, "image/png"));
    assert!(!h.should_compress(404, "text/html"));
    assert!(!h.should_compress(301, "text/html"));
    assert!(h.should_compress(200, "text/html; charset=utf-8"));
    assert_eq!(h.compress_body(200, "image/png", "gzip", &page(5000)), None);
}

#[test]
fn brotli_is_preferred_then_gzip() {
    let h = CompressionHandler::new(CompressionConfig::default());
    let body = page(5000);
    let (enc, data) = h.compress_body(200, "text/html", "gzip, br", &body).unwrap();
    assert_eq!(enc, "br");
    assert!(data.len() < body.len());
    let (enc, data) = h.compress_body(200, "text/html", "gzip", &body).unwrap();
    assert_eq!(enc, "gzip");
    assert_eq!(&data[..2], &[0x1f, 0x8b]);
    assert_eq!(h.compress_body(200, "text/html", "zstd", &body), None);
    assert_eq!(h.compress_body(200, "text/html", "identity", &body), None);
}

#[test]
fn zstd_when_enabled() {
    let mut config = CompressionConfig::default();
    config.enable_zstd = true;
    let h = CompressionHandler::new(config);
    let (enc, data) = h.compress_body(200, "application/json", "zstd", &page(4000)).unwrap();
    assert_eq!(enc, "zstd");
    assert_eq!(&data[..4], &[0x28, 0xb5, 0x2f, 0xfd]);
}

#[test]
fn compressed_response_carries_encoding_and_length() {
    let h = CompressionHandler::new(CompressionConfig::default());
    let r = h.compress_response_with_encoding(
        ResponseBuilder::new(200).header("content-type", "text/css").body(page(3000)).build(),
        "gzip",
    );
    assert_eq!(r.headers.get("content-encoding").unwrap(), "gzip");
    assert_eq!(r.headers.get("content-length").unwrap(), &r.body.len().to_string());
    assert!(r.body.len() < 3000);
}
