use crate::config::CompressionConfig;
use crate::named_map::{first_named, has_name};
use crate::response::{header_texts, set_header_text, HttpResponse, ResponseBuilder};
use crate::text::{decimal, decimal_text, has_infix, str_contains, str_starts_with};
use std::io::Write;
use vstd::prelude::*;

verus! {

/// What the `brotli` encoder writes for `data` at `quality`, or none when it fails.
pub uninterp spec fn brotli_of(data: Seq<u8>, quality: u32) -> Option<Seq<u8>>;

/// What the `flate2` gzip encoder writes for `data` at `level`, or none when it fails.
pub uninterp spec fn gzip_of(data: Seq<u8>, level: u32) -> Option<Seq<u8>>;

/// What `zstd::bulk::compress` writes for `data` at `level`, or none when it fails.
pub uninterp spec fn zstd_of(data: Seq<u8>, level: u32) -> Option<Seq<u8>>;

/// Relies on `brotli::CompressorWriter` (4 KiB buffer, window 22): the stream is
/// finished when the writer is dropped.
#[verifier::external_body]
fn brotli_compress(data: &Vec<u8>, quality: u32) -> (r: Option<Vec<u8>>)
    ensures
        r is None <==> brotli_of(data@, quality) is None,
        r is Some ==> brotli_of(data@, quality) == Some(r->0@),
{
    let mut out = Vec::new();
    let mut w = brotli::CompressorWriter::new(&mut out, 4096, quality, 22);
    let ok = w.write_all(data).is_ok() && w.flush().is_ok();
    drop(w);
    if ok { Some(out) } else { None }
}

/// Relies on `flate2::write::GzEncoder`; its default backend asserts a level of
/// at most 10.
#[verifier::external_body]
fn gzip_compress(data: &Vec<u8>, level: u32) -> (r: Option<Vec<u8>>)
    requires
        level <= 10,
    ensures
        r is None <==> gzip_of(data@, level) is None,
        r is Some ==> gzip_of(data@, level) == Some(r->0@),
{
    let mut e = flate2::write::GzEncoder::new(Vec::new(), flate2::Compression::new(level));
    if e.write_all(data).is_err() {
        return None;
    }
    e.finish().ok()
}

/// Relies on `zstd::bulk::compress`.
#[verifier::external_body]
fn zstd_compress(data: &Vec<u8>, level: u32) -> (r: Option<Vec<u8>>)
    ensures
        r is None <==> zstd_of(data@, level) is None,
        r is Some ==> zstd_of(data@, level) == Some(r->0@),
{
    zstd::bulk::compress(data, level as i32).ok()
}

/// The gzip level used for a configured level: the encoder takes at most 10.
pub open spec fn gzip_level(level: u32) -> u32 {
    if level > 10 {
        10
    } else {
        level
    }
}

/// Redirects and error responses are left alone, and so is any content type
/// that does not start with one of the compressible types.
pub open spec fn compressible(cfg: CompressionConfig, status: u16, content_type: Seq<char>) -> bool {
    &&& !(300 <= status < 600)
    &&& exists|i: int|
        0 <= i < cfg.compress_types@.len() && (#[trigger] cfg.compress_types@[i])@.is_prefix_of(
            content_type,
        )
}

/// The encoding applied and the encoded body: brotli, then gzip, then zstd, the
/// first that is enabled, accepted by the client and succeeds; none for a body
/// below the size threshold or a response that is not compressible.
pub open spec fn compression_outcome(
    cfg: CompressionConfig,
    status: u16,
    content_type: Seq<char>,
    accept_encoding: Seq<char>,
    body: Seq<u8>,
) -> Option<(Seq<char>, Seq<u8>)> {
    if !compressible(cfg, status, content_type) || body.len() < cfg.min_compress_size {
        None
    } else if cfg.enable_brotli && has_infix(accept_encoding, "br"@) && brotli_of(
        body,
        cfg.compression_level,
    ) is Some {
        Some(("br"@, brotli_of(body, cfg.compression_level)->0))
    } else if cfg.enable_gzip && has_infix(accept_encoding, "gzip"@) && gzip_of(
        body,
        gzip_level(cfg.compression_level),
    ) is Some {
        Some(("gzip"@, gzip_of(body, gzip_level(cfg.compression_level))->0))
    } else if cfg.enable_zstd && has_infix(accept_encoding, "zstd"@) && zstd_of(
        body,
        cfg.compression_level,
    ) is Some {
        Some(("zstd"@, zstd_of(body, cfg.compression_level)->0))
    } else {
        None
    }
}

/// The `content-type` of a header list, empty when there is none.
pub open spec fn content_type_of(h: Seq<(Seq<char>, String)>) -> Seq<char> {
    if has_name(h, "content-type"@) {
        h[choose|i: int| first_named(h, "content-type"@, i)].1@
    } else {
        Seq::empty()
    }
}

/// `r` is `response` after the compression stage: with the body encoded and
/// `content-encoding` and `content-length` set when the outcome says so, else
/// unchanged.
pub open spec fn compressed(
    cfg: CompressionConfig,
    response: HttpResponse,
    accept_encoding: Seq<char>,
    r: HttpResponse,
) -> bool {
    &&& r.status == response.status
    &&& match compression_outcome(
        cfg,
        response.status,
        content_type_of(response.headers@),
        accept_encoding,
        response.body@,
    ) {
        None => r.headers@ == response.headers@ && r.body@ == response.body@,
        Some((enc, data)) => {
            &&& r.body@ == data
            &&& header_texts(r.headers@) == set_header_text(
                set_header_text(header_texts(response.headers@), "content-encoding"@, enc),
                "content-length"@,
                decimal(data.len()),
            )
        },
    }
}

/// Re-encodes response bodies by content type, size and the client's
/// accepted encodings.
pub struct CompressionHandler {
    pub config: CompressionConfig,
}

impl CompressionHandler {
    pub fn new(config: CompressionConfig) -> (r: Self)
        ensures
            r.config == config,
    {
        CompressionHandler { config }
    }

    /// Whether a response with `status` and `content_type` may be compressed.
    pub fn should_compress(&self, status: u16, content_type: &str) -> (r: bool)
        ensures
            r == compressible(self.config, status, content_type@),
    {
        if 300 <= status && status < 600 {
            return false;
        }
        let types = &self.config.compress_types;
        let mut i: usize = 0;
        while i < types.len()
            invariant
                types@ == self.config.compress_types@,
                !(300 <= status < 600),
                i <= types@.len(),
                forall|j: int| 0 <= j < i ==> !(#[trigger] types@[j])@.is_prefix_of(content_type@),
            decreases types@.len() - i,
        {
            if str_starts_with(content_type, types[i].as_str()) {
                assert((self.config.compress_types@[i as int])@.is_prefix_of(content_type@));
                return true;
            }
            i += 1;
        }
        false
    }

    /// The encoding and encoded body for a response, if it is to be compressed.
    pub fn compress_body(
        &self,
        status: u16,
        content_type: &str,
        accept_encoding: &str,
        body: &Vec<u8>,
    ) -> (r: Option<(String, Vec<u8>)>)
        ensures
            match r {
                Some(p) => compression_outcome(self.config, status, content_type@, accept_encoding@, body@)
                    == Some((p.0@, p.1@)),
                None => compression_outcome(self.config, status, content_type@, accept_encoding@, body@) is None,
            },
    {
        if !self.should_compress(status, content_type) || body.len() < self.config.min_compress_size {
            return None;
        }
        let level = self.config.compression_level;
        if self.config.enable_brotli && str_contains(accept_encoding, "br") {
            if let Some(c) = brotli_compress(body, level) {
                return Some(("br".to_string(), c));
            }
        }
        if self.config.enable_gzip && str_contains(accept_encoding, "gzip") {
            let gz_level = if level > 10 {
                10
            } else {
                level
            };
            if let Some(c) = gzip_compress(body, gz_level) {
                return Some(("gzip".to_string(), c));
            }
        }
        if self.config.enable_zstd && str_contains(accept_encoding, "zstd") {
            if let Some(c) = zstd_compress(body, level) {
                return Some(("zstd".to_string(), c));
            }
        }
        None
    }

    /// Compresses `response` when `compress_body` says so, setting
    /// `content-encoding` and `content-length`; otherwise returns it unchanged.
    pub fn compress_response_with_encoding(&self, response: HttpResponse, accept_encoding: &str) -> (r: HttpResponse)
        ensures
            compressed(self.config, response, accept_encoding@, r),
    {
        let content_type = match response.headers.get("content-type") {
            Some(v) => v.clone(),
            None => String::new(),
        };
        proof {
            if has_name(response.headers@, "content-type"@) {
                let i = choose|i: int| first_named(response.headers@, "content-type"@, i);
                assert forall|j: int| first_named(response.headers@, "content-type"@, j) implies j == i by {
                    if j < i {
                        assert(response.headers@[j].0 != "content-type"@);
                    } else if j > i {
                        assert(response.headers@[i].0 != "content-type"@);
                    }
                }
            }
        }
        assert(content_type@ == content_type_of(response.headers@));
        match self.compress_body(response.status, content_type.as_str(), accept_encoding, &response.body) {
            Some((enc, data)) => {
                let len = decimal_text(data.len() as u64);
                let b = ResponseBuilder { status: response.status, headers: response.headers, body: data };
                b.header_string("content-encoding", enc).header_string("content-length", len).build()
            },
            None => response,
        }
    }
}

/// A body below the size threshold, or a response whose content type is not
/// compressible, is never compressed, whatever encodings the client accepts.
pub proof fn lemma_small_or_excluded_not_compressed(
    cfg: CompressionConfig,
    status: u16,
    content_type: Seq<char>,
    accept_encoding: Seq<char>,
    body: Seq<u8>,
)
    requires
        body.len() < cfg.min_compress_size || !exists|i: int|
            0 <= i < cfg.compress_types@.len() && (#[trigger] cfg.compress_types@[i])@.is_prefix_of(
                content_type,
            ),
    ensures
        compression_outcome(cfg, status, content_type, accept_encoding, body) is None,
{
}

} // verus!
