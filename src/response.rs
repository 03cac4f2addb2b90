use crate::named_map::{first_named, has_name, NamedMap};
use vstd::prelude::*;
use vstd::string::{StrSliceExecFns, StringSliceAdditionalSpecFns};

verus! {

/// A response as the library produces it: status, headers in order (lower-case
/// names, one value each) and body bytes.
#[derive(Debug)]
pub struct HttpResponse {
    pub status: u16,
    pub headers: NamedMap<String>,
    pub body: Vec<u8>,
}

/// Header names with the views of their values.
pub open spec fn header_texts(h: Seq<(Seq<char>, String)>) -> Seq<(Seq<char>, Seq<char>)> {
    h.map_values(|e: (Seq<char>, String)| (e.0, e.1@))
}

/// Each entry of `header_texts(h)` is the name of `h`'s entry with its value's view.
pub proof fn lemma_header_texts(h: Seq<(Seq<char>, String)>)
    ensures
        header_texts(h).len() == h.len(),
        forall|i: int| 0 <= i < h.len() ==> #[trigger] header_texts(h)[i] == (h[i].0, h[i].1@),
{
}

/// The header list `h` with `name` set to `value`: the first entry with that
/// name takes the new value, or the pair is appended when there is none.
pub open spec fn set_header_text(
    h: Seq<(Seq<char>, Seq<char>)>,
    name: Seq<char>,
    value: Seq<char>,
) -> Seq<(Seq<char>, Seq<char>)>
    decreases h.len(),
{
    if h.len() == 0 {
        seq![(name, value)]
    } else if h[0].0 == name {
        h.update(0, (name, value))
    } else {
        seq![h[0]] + set_header_text(h.drop_first(), name, value)
    }
}

proof fn lemma_set_text_append(h: Seq<(Seq<char>, Seq<char>)>, name: Seq<char>, value: Seq<char>)
    requires
        forall|j: int| 0 <= j < h.len() ==> #[trigger] h[j].0 != name,
    ensures
        set_header_text(h, name, value) == h.push((name, value)),
    decreases h.len(),
{
    if h.len() > 0 {
        let t = h.drop_first();
        assert forall|j: int| 0 <= j < t.len() implies #[trigger] t[j].0 != name by {
            assert(t[j] == h[j + 1]);
        }
        lemma_set_text_append(t, name, value);
        assert(seq![h[0]] + t.push((name, value)) =~= h.push((name, value)));
    } else {
        assert(seq![(name, value)] =~= h.push((name, value)));
    }
}

proof fn lemma_set_text_update(h: Seq<(Seq<char>, Seq<char>)>, name: Seq<char>, value: Seq<char>, i: int)
    requires
        0 <= i < h.len(),
        h[i].0 == name,
        forall|j: int| 0 <= j < i ==> #[trigger] h[j].0 != name,
    ensures
        set_header_text(h, name, value) == h.update(i, (name, value)),
    decreases h.len(),
{
    if i > 0 {
        let t = h.drop_first();
        assert forall|j: int| 0 <= j < i - 1 implies #[trigger] t[j].0 != name by {
            assert(t[j] == h[j + 1]);
        }
        lemma_set_text_update(t, name, value, i - 1);
        assert(seq![h[0]] + t.update(i - 1, (name, value)) =~= h.update(i, (name, value)));
    }
}

/// `header_set` is `set_header_text` on the texts.
pub proof fn lemma_header_set_text(
    a: Seq<(Seq<char>, String)>,
    b: Seq<(Seq<char>, String)>,
    name: Seq<char>,
    value: Seq<char>,
)
    requires
        header_set(a, b, name, value),
    ensures
        header_texts(b) == set_header_text(header_texts(a), name, value),
{
    lemma_header_texts(a);
    let ta = header_texts(a);
    if has_name(a, name) {
        let i = choose|i: int|
            first_named(a, name, i) && header_texts(b) == #[trigger] header_texts(a).update(i, (name, value));
        assert forall|j: int| 0 <= j < i implies #[trigger] ta[j].0 != name by {
            assert(ta[j].0 == a[j].0);
        }
        lemma_set_text_update(ta, name, value, i);
    } else {
        assert forall|j: int| 0 <= j < ta.len() implies #[trigger] ta[j].0 != name by {
            assert(ta[j].0 == a[j].0);
        }
        lemma_set_text_append(ta, name, value);
    }
}

/// Setting a header whose name is new appends it.
pub proof fn lemma_header_appended(
    a: Seq<(Seq<char>, String)>,
    b: Seq<(Seq<char>, String)>,
    name: Seq<char>,
    value: Seq<char>,
)
    requires
        header_set(a, b, name, value),
        forall|i: int| 0 <= i < a.len() ==> #[trigger] a[i].0 != name,
    ensures
        header_texts(b) == header_texts(a).push((name, value)),
        b.len() == a.len() + 1,
        forall|i: int| 0 <= i < a.len() ==> #[trigger] b[i].0 == a[i].0,
        b[a.len() as int].0 == name,
{
    lemma_header_texts(a);
    lemma_header_texts(b);
    assert forall|i: int| 0 <= i < a.len() implies #[trigger] b[i].0 == a[i].0 by {
        assert(header_texts(b)[i] == header_texts(a)[i]);
    }
    assert(header_texts(b)[a.len() as int] == (name, value));
}

/// `b` is the header list `a` with `name` set to `value`: in place of the first
/// entry with that name, else appended.
pub open spec fn header_set(
    a: Seq<(Seq<char>, String)>,
    b: Seq<(Seq<char>, String)>,
    name: Seq<char>,
    value: Seq<char>,
) -> bool {
    &&& has_name(a, name) ==> exists|i: int|
        first_named(a, name, i) && header_texts(b) == #[trigger] header_texts(a).update(i, (name, value))
    &&& !has_name(a, name) ==> header_texts(b) == header_texts(a).push((name, value))
}

/// Builds an `HttpResponse` one part at a time.
#[derive(Debug)]
pub struct ResponseBuilder {
    pub status: u16,
    pub headers: NamedMap<String>,
    pub body: Vec<u8>,
}

impl ResponseBuilder {
    /// A response with `status`, no headers and an empty body.
    pub fn new(status: u16) -> (r: Self)
        ensures
            r.status == status,
            r.headers@.len() == 0,
            r.body@.len() == 0,
    {
        ResponseBuilder { status, headers: NamedMap::new(), body: Vec::new() }
    }

    /// Sets header `name` to `value`.
    pub fn header(self, name: &str, value: &str) -> (r: Self)
        ensures
            r.status == self.status,
            r.body@ == self.body@,
            header_set(self.headers@, r.headers@, name@, value@),
            header_texts(r.headers@) == set_header_text(header_texts(self.headers@), name@, value@),
    {
        self.header_string(name, value.to_string())
    }

    /// Sets header `name` to `value`.
    pub fn header_string(self, name: &str, value: String) -> (r: Self)
        ensures
            r.status == self.status,
            r.body@ == self.body@,
            header_set(self.headers@, r.headers@, name@, value@),
            header_texts(r.headers@) == set_header_text(header_texts(self.headers@), name@, value@),
    {
        let mut b = self;
        let ghost before = b.headers@;
        b.headers.insert(name.to_string(), value);
        proof {
            if has_name(before, name@) {
                let i = choose|i: int|
                    first_named(before, name@, i) && b.headers@ == #[trigger] before.update(i, (name@, value));
                assert(header_texts(b.headers@) =~= header_texts(before).update(i, (name@, value@)));
            } else {
                assert(header_texts(b.headers@) =~= header_texts(before).push((name@, value@)));
            }
            lemma_header_set_text(before, b.headers@, name@, value@);
        }
        b
    }

    /// Replaces the body.
    pub fn body(self, body: Vec<u8>) -> (r: Self)
        ensures
            r.status == self.status,
            r.headers@ == self.headers@,
            r.body@ == body@,
    {
        let mut b = self;
        b.body = body;
        b
    }

    pub fn build(self) -> (r: HttpResponse)
        ensures
            r.status == self.status,
            r.headers@ == self.headers@,
            r.body@ == self.body@,
    {
        HttpResponse { status: self.status, headers: self.headers, body: self.body }
    }
}

pub const BAD_REQUEST_PAGE: &'static str = "<!DOCTYPE html><html><head><title>400 Bad Request</title></head><body><h1>400 Bad Request</h1><p>The request could not be understood.</p></body></html>";

pub const FORBIDDEN_PAGE: &'static str = "<!DOCTYPE html><html><head><title>403 Forbidden</title></head><body><h1>403 Forbidden</h1><p>Access to this resource is denied.</p></body></html>";

pub const NOT_FOUND_PAGE: &'static str = "<!DOCTYPE html><html><head><title>404 Not Found</title></head><body><h1>404 Not Found</h1><p>The requested resource was not found on this server.</p></body></html>";

pub const METHOD_NOT_ALLOWED_PAGE: &'static str = "<!DOCTYPE html><html><head><title>405 Method Not Allowed</title></head><body><h1>405 Method Not Allowed</h1><p>The method is not allowed for this resource.</p></body></html>";

pub const INTERNAL_SERVER_ERROR_PAGE: &'static str = "<!DOCTYPE html><html><head><title>500 Internal Server Error</title></head><body><h1>500 Internal Server Error</h1><p>The server failed to complete the request.</p></body></html>";

pub const BAD_GATEWAY_PAGE: &'static str = "<!DOCTYPE html><html><head><title>502 Bad Gateway</title></head><body><h1>502 Bad Gateway</h1><p>The upstream server did not answer properly.</p></body></html>";

pub const SERVICE_UNAVAILABLE_PAGE: &'static str = "<!DOCTYPE html><html><head><title>503 Service Unavailable</title></head><body><h1>503 Service Unavailable</h1><p>The server cannot handle the request right now.</p></body></html>";

pub const GATEWAY_TIMEOUT_PAGE: &'static str = "<!DOCTYPE html><html><head><title>504 Gateway Timeout</title></head><body><h1>504 Gateway Timeout</h1><p>The upstream server did not answer in time.</p></body></html>";

pub const TOO_MANY_REQUESTS_PAGE: &'static str = "<!DOCTYPE html><html><head><title>429 Too Many Requests</title></head><body><h1>429 Too Many Requests</h1><p>Too many requests; retry later.</p></body></html>";

fn error_builder(status: u16, page: &str) -> (r: ResponseBuilder)
    ensures
        r.status == status,
        header_texts(r.headers@) == seq![("content-type"@, "text/html"@)],
        r.body@ == page.spec_bytes(),
{
    let r = ResponseBuilder::new(status).header("content-type", "text/html").body(page.as_bytes_vec());
    assert(header_texts(r.headers@) =~= seq![("content-type"@, "text/html"@)]);
    r
}

/// The error responses, each an HTML page with its status.
pub struct ErrorResponse;

impl ErrorResponse {
    pub fn bad_request() -> (r: ResponseBuilder)
        ensures
            r.status == 400,
            header_texts(r.headers@) == seq![("content-type"@, "text/html"@)],
            r.body@ == BAD_REQUEST_PAGE.spec_bytes(),
    {
        error_builder(400, BAD_REQUEST_PAGE)
    }

    pub fn forbidden() -> (r: ResponseBuilder)
        ensures
            r.status == 403,
            header_texts(r.headers@) == seq![("content-type"@, "text/html"@)],
            r.body@ == FORBIDDEN_PAGE.spec_bytes(),
    {
        error_builder(403, FORBIDDEN_PAGE)
    }

    pub fn not_found() -> (r: ResponseBuilder)
        ensures
            r.status == 404,
            header_texts(r.headers@) == seq![("content-type"@, "text/html"@)],
            r.body@ == NOT_FOUND_PAGE.spec_bytes(),
    {
        error_builder(404, NOT_FOUND_PAGE)
    }

    pub fn method_not_allowed() -> (r: ResponseBuilder)
        ensures
            r.status == 405,
            header_texts(r.headers@) == seq![("content-type"@, "text/html"@)],
            r.body@ == METHOD_NOT_ALLOWED_PAGE.spec_bytes(),
    {
        error_builder(405, METHOD_NOT_ALLOWED_PAGE)
    }

    pub fn internal_server_error() -> (r: ResponseBuilder)
        ensures
            r.status == 500,
            header_texts(r.headers@) == seq![("content-type"@, "text/html"@)],
            r.body@ == INTERNAL_SERVER_ERROR_PAGE.spec_bytes(),
    {
        error_builder(500, INTERNAL_SERVER_ERROR_PAGE)
    }

    pub fn bad_gateway() -> (r: ResponseBuilder)
        ensures
            r.status == 502,
            header_texts(r.headers@) == seq![("content-type"@, "text/html"@)],
            r.body@ == BAD_GATEWAY_PAGE.spec_bytes(),
    {
        error_builder(502, BAD_GATEWAY_PAGE)
    }

    pub fn service_unavailable() -> (r: ResponseBuilder)
        ensures
            r.status == 503,
            header_texts(r.headers@) == seq![("content-type"@, "text/html"@)],
            r.body@ == SERVICE_UNAVAILABLE_PAGE.spec_bytes(),
    {
        error_builder(503, SERVICE_UNAVAILABLE_PAGE)
    }

    pub fn gateway_timeout() -> (r: ResponseBuilder)
        ensures
            r.status == 504,
            header_texts(r.headers@) == seq![("content-type"@, "text/html"@)],
            r.body@ == GATEWAY_TIMEOUT_PAGE.spec_bytes(),
    {
        error_builder(504, GATEWAY_TIMEOUT_PAGE)
    }

    /// A 429 page that asks the client to wait a minute.
    pub fn too_many_requests() -> (r: ResponseBuilder)
        ensures
            r.status == 429,
            header_texts(r.headers@) == seq![("content-type"@, "text/html"@), ("retry-after"@, "60"@)],
            r.body@ == TOO_MANY_REQUESTS_PAGE.spec_bytes(),
    {
        proof {
            reveal_strlit("content-type");
            reveal_strlit("retry-after");
        }
        let b = error_builder(429, TOO_MANY_REQUESTS_PAGE);
        assert(header_texts(b.headers@).len() == 1);
        assert(header_texts(b.headers@)[0] == ("content-type"@, "text/html"@));
        assert(b.headers@.len() == 1 && b.headers@[0].0 == "content-type"@);
        assert(b.headers@[0].0.len() != "retry-after"@.len());
        assert(!has_name(b.headers@, "retry-after"@));
        let r = b.header("retry-after", "60");
        assert(header_texts(r.headers@) =~= seq![("content-type"@, "text/html"@), ("retry-after"@, "60"@)]);
        r
    }
}

} // verus!
