use crate::config::SecurityConfig;
use crate::response::{header_texts, set_header_text, HttpResponse, ResponseBuilder};
use vstd::prelude::*;
use vstd::utf8::encode_utf8;

verus! {

/// What `http::HeaderName::from_str` makes of `s`: the header name in lower case,
/// or none when `s` is not a valid header name.
pub uninterp spec fn canonical_header_name(s: Seq<char>) -> Option<Seq<char>>;

/// A header value byte: a tab, or a byte from space upwards other than DEL.
pub open spec fn header_value_byte(b: u8) -> bool {
    (b >= 32 && b != 127) || b == 9
}

/// The rule `http::HeaderValue::from_str` applies: every byte of the value's
/// UTF-8 encoding is a header value byte.
pub open spec fn valid_header_value(s: Seq<char>) -> bool {
    forall|i: int| 0 <= i < encode_utf8(s).len() ==> header_value_byte(#[trigger] encode_utf8(s)[i])
}

/// Relies on `http::HeaderName::from_str` and `HeaderName::as_str`.
#[verifier::external_body]
fn parse_header_name(s: &str) -> (r: Option<String>)
    ensures
        r is None <==> canonical_header_name(s@) is None,
        r is Some ==> canonical_header_name(s@) == Some(r->0@),
{
    s.parse::<http::HeaderName>().ok().map(|n| n.as_str().to_string())
}

/// Whether `s` is a valid header value.
fn header_value_ok(s: &str) -> (r: bool)
    ensures
        r == valid_header_value(s@),
{
    let b = s.as_bytes();
    let mut i: usize = 0;
    while i < b.len()
        invariant
            b@ == encode_utf8(s@),
            i <= b@.len(),
            forall|j: int| 0 <= j < i ==> header_value_byte(#[trigger] b@[j]),
        decreases b@.len() - i,
    {
        let c = b[i];
        if !((c >= 32 && c != 127) || c == 9) {
            assert(!header_value_byte(b@[i as int]));
            return false;
        }
        i += 1;
    }
    true
}

/// A rate limiter of the `governor` crate: one token bucket per client key.
#[verifier::external_body]
pub struct ClientRateLimiter {
    inner: governor::DefaultKeyedRateLimiter<String>,
}

/// Relies on `governor::Quota::per_second(..).allow_burst(..)` and
/// `RateLimiter::dashmap`: a keyed limiter that refills `rps` tokens a second
/// into buckets of `burst` tokens.
#[verifier::external_body]
fn new_rate_limiter(rps: u32, burst: u32) -> (r: ClientRateLimiter)
    requires
        rps > 0,
        burst > 0,
{
    let quota = governor::Quota::per_second(std::num::NonZeroU32::new(rps).unwrap()).allow_burst(
        std::num::NonZeroU32::new(burst).unwrap(),
    );
    ClientRateLimiter { inner: governor::RateLimiter::dashmap(quota) }
}

/// Relies on `RateLimiter::check_key`: takes a token from `key`'s bucket if it has
/// one. The outcome depends on the clock and on earlier calls.
#[verifier::external_body]
fn limiter_check_key(l: &ClientRateLimiter, key: &String) -> (r: bool) {
    l.inner.check_key(key).is_ok()
}

/// The identification header set on every response.
pub const SERVER_NAME: &'static str = "RustWeb/0.1.0";

/// `h` after the configured headers `cfg`, in order: each whose name is valid
/// (taken in lower case) and whose value is valid is set.
pub open spec fn with_configured_headers(
    h: Seq<(Seq<char>, Seq<char>)>,
    cfg: Seq<(Seq<char>, String)>,
) -> Seq<(Seq<char>, Seq<char>)>
    decreases cfg.len(),
{
    if cfg.len() == 0 {
        h
    } else {
        let prev = with_configured_headers(h, cfg.drop_last());
        let e = cfg.last();
        if canonical_header_name(e.0) is Some && valid_header_value(e.1@) {
            set_header_text(prev, canonical_header_name(e.0)->0, e.1@)
        } else {
            prev
        }
    }
}

/// `r` is `response` with the configured security headers and then the server
/// identification header set.
pub open spec fn secured(cfg: SecurityConfig, response: HttpResponse, r: HttpResponse) -> bool {
    &&& r.status == response.status
    &&& r.body@ == response.body@
    &&& header_texts(r.headers@) == set_header_text(
        with_configured_headers(header_texts(response.headers@), cfg.security_headers@),
        "server"@,
        SERVER_NAME@,
    )
}

/// `m` is one of the allowed methods.
pub open spec fn method_allowed(allowed: Seq<String>, m: Seq<char>) -> bool {
    exists|i: int| 0 <= i < allowed.len() && #[trigger] allowed[i]@ == m
}

/// Method allow-list, per-client rate limiting, request size limit and response
/// security headers.
pub struct SecurityHandler {
    pub config: SecurityConfig,
    pub rate_limiter: Option<ClientRateLimiter>,
}

impl SecurityHandler {
    /// Rate limiting is on when the configuration asks for it; a rate or burst of
    /// zero counts as one.
    pub fn new(config: SecurityConfig) -> (r: Self)
        ensures
            r.config == config,
            r.limits() == config.enable_rate_limiting,
    {
        let rate_limiter = if config.enable_rate_limiting {
            let rps = if config.rate_limit_requests_per_second == 0 {
                1
            } else {
                config.rate_limit_requests_per_second
            };
            let burst = if config.rate_limit_burst == 0 {
                1
            } else {
                config.rate_limit_burst
            };
            Some(new_rate_limiter(rps, burst))
        } else {
            None
        };
        SecurityHandler { config, rate_limiter }
    }

    /// Whether requests are rate limited.
    pub open spec fn limits(&self) -> bool {
        self.rate_limiter is Some
    }

    /// Whether `method` is in the allow-list.
    pub fn check_method(&self, method: &str) -> (r: bool)
        ensures
            r == method_allowed(self.config.allowed_methods@, method@),
    {
        let m = method.to_string();
        let allowed = &self.config.allowed_methods;
        let mut i: usize = 0;
        while i < allowed.len()
            invariant
                m@ == method@,
                allowed@ == self.config.allowed_methods@,
                i <= allowed@.len(),
                forall|j: int| 0 <= j < i ==> #[trigger] allowed@[j]@ != method@,
            decreases allowed@.len() - i,
        {
            if allowed[i] == m {
                assert(allowed@[i as int]@ == method@);
                return true;
            }
            i += 1;
        }
        false
    }

    /// Takes a token for `client`; false when its bucket is empty. Without rate
    /// limiting every request passes.
    pub fn check_rate_limit(&self, client: &str) -> (r: bool)
        ensures
            !self.limits() ==> r,
    {
        match &self.rate_limiter {
            Some(l) => limiter_check_key(l, &client.to_string()),
            None => true,
        }
    }

    /// Sets the configured security headers on `response`, then the server
    /// identification header, which is always present.
    pub fn add_security_headers(&self, response: HttpResponse) -> (r: HttpResponse)
        ensures
            secured(self.config, response, r),
    {
        let ghost h0 = header_texts(response.headers@);
        let cfg = &self.config.security_headers;
        let mut b = ResponseBuilder {
            status: response.status,
            headers: response.headers,
            body: response.body,
        };
        let mut i: usize = 0;
        assert(cfg@.subrange(0, 0) =~= Seq::<(Seq<char>, String)>::empty());
        while i < cfg.len()
            invariant
                i <= cfg@.len(),
                b.status == response.status,
                b.body@ == response.body@,
                header_texts(b.headers@) == with_configured_headers(h0, cfg@.subrange(0, i as int)),
            decreases cfg@.len() - i,
        {
            let (name, value) = cfg.entry(i);
            proof {
                assert(cfg@.subrange(0, i + 1).drop_last() =~= cfg@.subrange(0, i as int));
                assert(cfg@.subrange(0, i + 1).last() == cfg@[i as int]);
            }
            if let Some(n) = parse_header_name(name.as_str()) {
                if header_value_ok(value.as_str()) {
                    b = b.header_string(n.as_str(), value.clone());
                }
            }
            i += 1;
        }
        assert(cfg@.subrange(0, cfg@.len() as int) =~= cfg@);
        b.header("server", SERVER_NAME).build()
    }

    /// Whether a declared body length is within the limit; a request without one
    /// passes.
    pub fn validate_request_size(&self, content_length: Option<usize>) -> (r: bool)
        ensures
            r == match content_length {
                Some(n) => n <= self.config.max_request_size,
                None => true,
            },
    {
        match content_length {
            Some(n) => n <= self.config.max_request_size,
            None => true,
        }
    }
}

} // verus!
