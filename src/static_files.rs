use crate::config::texts;
use crate::response::{header_texts, lemma_header_appended, ErrorResponse, HttpResponse, ResponseBuilder};
use crate::text::{decimal, decimal_text};
use vstd::prelude::*;
use vstd::string::StringExecFns;

verus! {

/// What `urlencoding::decode` gives for `s`: the text with `%XX` escapes decoded,
/// or none when the decoded bytes are not UTF-8.
pub uninterp spec fn percent_decoded(s: Seq<char>) -> Option<Seq<char>>;

/// What `mime_guess` gives for a path: the media type of its extension, or
/// `application/octet-stream`.
pub uninterp spec fn guessed_mime(path: Seq<char>) -> Seq<char>;

/// What `httpdate::fmt_http_date` writes for the instant `secs` seconds after the
/// epoch (`Fri, 15 May 2015 15:34:21 GMT`).
pub uninterp spec fn http_date_text(secs: int) -> Seq<char>;

/// What `httpdate::parse_http_date` reads from `s`, as seconds after the epoch.
pub uninterp spec fn http_date_secs(s: Seq<char>) -> Option<u64>;

/// The first instant that `httpdate` cannot write: the start of the year 10000.
pub const HTTP_DATE_LIMIT: u64 = 253402300800;

/// Relies on `urlencoding::decode`, which decodes `%XX` escapes and fails when the
/// result is not UTF-8; a text without `%` comes back unchanged.
#[verifier::external_body]
fn url_decode(s: &str) -> (r: Option<String>)
    ensures
        r is None <==> percent_decoded(s@) is None,
        r matches Some(d) ==> percent_decoded(s@) == Some(d@),
        !s@.contains('%') ==> r is Some && r->0@ == s@,
{
    urlencoding::decode(s).ok().map(|d| d.into_owned())
}

/// Relies on `mime_guess::from_path(..).first_or_octet_stream()`, written as text.
#[verifier::external_body]
fn mime_for_path(path: &str) -> (r: String)
    ensures
        r@ == guessed_mime(path@),
{
    mime_guess::from_path(path).first_or_octet_stream().to_string()
}

/// Relies on `httpdate::fmt_http_date`, which panics from the year 10000 on.
#[verifier::external_body]
fn fmt_http_date(secs: u64) -> (r: String)
    requires
        secs < HTTP_DATE_LIMIT,
    ensures
        r@ == http_date_text(secs as int),
{
    httpdate::fmt_http_date(std::time::UNIX_EPOCH + std::time::Duration::from_secs(secs))
}

/// Relies on `httpdate::parse_http_date`, taken as seconds after the epoch.
#[verifier::external_body]
fn parse_http_date(s: &str) -> (r: Option<u64>)
    ensures
        r == http_date_secs(s@),
{
    httpdate::parse_http_date(s).ok().and_then(|t| t.duration_since(std::time::UNIX_EPOCH).ok()).map(
        |d| d.as_secs(),
    )
}

/// `s` without its leading slashes.
pub open spec fn trim_slashes(s: Seq<char>) -> Seq<char>
    decreases s.len(),
{
    if s.len() > 0 && s[0] == '/' {
        trim_slashes(s.drop_first())
    } else {
        s
    }
}

/// `s` has a `..` segment starting at `i`: two dots between slashes or the ends.
pub open spec fn parent_segment_at(s: Seq<char>, i: int) -> bool {
    &&& 0 <= i && i + 2 <= s.len()
    &&& s[i] == '.' && s[i + 1] == '.'
    &&& (i == 0 || s[i - 1] == '/')
    &&& (i + 2 == s.len() || s[i + 2] == '/')
}

/// A decoded request path is refused when it has a parent-directory segment or
/// a NUL character.
pub open spec fn traversal(s: Seq<char>) -> bool {
    (exists|i: int| parent_segment_at(s, i)) || s.contains('\0')
}

/// The weak entity tag of a file of `size` bytes last modified at `mtime`.
pub open spec fn etag_text(size: u64, mtime: u64) -> Seq<char> {
    "W/\""@ + decimal(size as nat) + "-"@ + decimal(mtime as nat) + "\""@
}

/// A conditional request is answered with 304 when `If-None-Match` equals the
/// entity tag, or when the file is no newer than `If-Modified-Since`.
pub open spec fn not_modified(
    if_none_match: Option<Seq<char>>,
    etag: Seq<char>,
    since: Option<u64>,
    mtime: u64,
) -> bool {
    (if_none_match matches Some(v) && v == etag) || (since matches Some(t) && mtime <= t)
}

/// The headers of a file response: type from the path, length, entity tag, date
/// of last change (when `httpdate` can write it) and range support.
pub open spec fn file_headers(path: Seq<char>, length: nat, size: u64, mtime: u64) -> Seq<
    (Seq<char>, Seq<char>),
> {
    let base = seq![
        ("content-type"@, guessed_mime(path)),
        ("content-length"@, decimal(length)),
        ("etag"@, etag_text(size, mtime)),
    ];
    if mtime < HTTP_DATE_LIMIT {
        base.push(("last-modified"@, http_date_text(mtime as int))).push(
            ("accept-ranges"@, "bytes"@),
        )
    } else {
        base.push(("accept-ranges"@, "bytes"@))
    }
}

/// Why a static request is answered with an error.
#[derive(Clone, Copy, Debug, PartialEq, Eq, Structural)]
pub enum StaticError {
    /// The path's percent-encoding does not decode to UTF-8.
    BadEncoding,
    /// The path tries to leave the document root, or names a directory without
    /// an index file.
    Forbidden,
    /// Only GET and HEAD are served.
    MethodNotAllowed,
    NotFound,
}

/// The status of each static-file failure.
pub open spec fn static_error_status(e: StaticError) -> u16 {
    match e {
        StaticError::BadEncoding => 400u16,
        StaticError::Forbidden => 403u16,
        StaticError::MethodNotAllowed => 405u16,
        StaticError::NotFound => 404u16,
    }
}

impl StaticError {
    pub fn status(&self) -> (r: u16)
        ensures
            r == static_error_status(*self),
    {
        match self {
            StaticError::BadEncoding => 400,
            StaticError::Forbidden => 403,
            StaticError::MethodNotAllowed => 405,
            StaticError::NotFound => 404,
        }
    }

    /// The error page for this failure.
    pub fn response(&self) -> (r: HttpResponse)
        ensures
            r.status == static_error_status(*self),
    {
        match self {
            StaticError::BadEncoding => ErrorResponse::bad_request().build(),
            StaticError::Forbidden => ErrorResponse::forbidden().build(),
            StaticError::MethodNotAllowed => ErrorResponse::method_not_allowed().build(),
            StaticError::NotFound => ErrorResponse::not_found().build(),
        }
    }
}

/// Serves files under a document root: the decisions between the filesystem
/// steps, which the caller performs.
pub struct StaticFileHandler;

impl StaticFileHandler {
    pub fn new() -> Self {
        StaticFileHandler
    }

    /// Checks a decoded path: refuses traversal, else gives it without leading slashes.
    pub fn sanitize_decoded(&self, decoded: &str) -> (r: Result<String, StaticError>)
        ensures
            traversal(trim_slashes(decoded@)) ==> r == Err::<String, StaticError>(
                StaticError::Forbidden,
            ),
            !traversal(trim_slashes(decoded@)) ==> (r matches Ok(p) && p@ == trim_slashes(decoded@)),
    {
        let n = decoded.unicode_len();
        let mut k: usize = 0;
        assert(decoded@.subrange(0, n as int) =~= decoded@);
        while k < n && decoded.get_char(k) == '/'
            invariant
                n == decoded@.len(),
                k <= n,
                trim_slashes(decoded@) == trim_slashes(decoded@.subrange(k as int, n as int)),
            decreases n - k,
        {
            proof {
                let rest = decoded@.subrange(k as int, n as int);
                assert(rest.drop_first() =~= decoded@.subrange(k + 1, n as int));
            }
            k += 1;
        }
        let trimmed = decoded.substring_char(k, n);
        proof {
            let rest = decoded@.subrange(k as int, n as int);
            assert(trim_slashes(rest) == rest);
        }
        if has_parent_segment(trimmed) || contains_nul(trimmed) {
            return Err(StaticError::Forbidden);
        }
        Ok(trimmed.to_string())
    }

    /// Decodes and checks a request path.
    pub fn sanitize_path(&self, path: &str) -> (r: Result<String, StaticError>)
        ensures
            match percent_decoded(path@) {
                None => r == Err::<String, StaticError>(StaticError::BadEncoding),
                Some(d) => if traversal(trim_slashes(d)) {
                    r == Err::<String, StaticError>(StaticError::Forbidden)
                } else {
                    r matches Ok(p) && p@ == trim_slashes(d)
                },
            },
            !path@.contains('%') && traversal(trim_slashes(path@)) ==> r == Err::<String, StaticError>(
                StaticError::Forbidden,
            ),
            !path@.contains('%') && !traversal(trim_slashes(path@)) ==> (r matches Ok(p) && p@
                == trim_slashes(path@)),
    {
        match url_decode(path) {
            Some(d) => self.sanitize_decoded(d.as_str()),
            None => Err(StaticError::BadEncoding),
        }
    }

    /// The first checks of a static request, made before any filesystem access:
    /// the method must be GET or HEAD and the path must decode and stay inside
    /// the document root. Gives the path relative to the root.
    pub fn check_request(&self, method: &str, path: &str) -> (r: Result<String, StaticError>)
        ensures
            !(method@ == "GET"@ || method@ == "HEAD"@) ==> r == Err::<String, StaticError>(
                StaticError::MethodNotAllowed,
            ),
            (method@ == "GET"@ || method@ == "HEAD"@) ==> match percent_decoded(path@) {
                None => r == Err::<String, StaticError>(StaticError::BadEncoding),
                Some(d) => if traversal(trim_slashes(d)) {
                    r == Err::<String, StaticError>(StaticError::Forbidden)
                } else {
                    r matches Ok(p) && p@ == trim_slashes(d)
                },
            },
            (method@ == "GET"@ || method@ == "HEAD"@) && !path@.contains('%') && !traversal(
                trim_slashes(path@),
            ) ==> (r matches Ok(p) && p@ == trim_slashes(path@)),
    {
        let m = method.to_string();
        if !(m == "GET".to_string() || m == "HEAD".to_string()) {
            return Err(StaticError::MethodNotAllowed);
        }
        self.sanitize_path(path)
    }

    /// Whether the canonical path of the requested file, as path components, lies
    /// under the canonical document root.
    pub fn is_safe_path(&self, requested: &Vec<String>, root: &Vec<String>) -> (r: bool)
        ensures
            r == texts(root@).is_prefix_of(texts(requested@)),
    {
        if root.len() > requested.len() {
            return false;
        }
        let mut i: usize = 0;
        while i < root.len()
            invariant
                root@.len() <= requested@.len(),
                i <= root@.len(),
                forall|j: int| 0 <= j < i ==> #[trigger] root@[j]@ == requested@[j]@,
            decreases root@.len() - i,
        {
            if root[i] != requested[i] {
                assert(texts(root@)[i as int] != texts(requested@)[i as int]);
                return false;
            }
            i += 1;
        }
        assert(texts(requested@).subrange(0, root@.len() as int) =~= texts(root@));
        true
    }

    /// The first index file, in order, that exists as a regular file;
    /// `is_file[k]` tells whether `index_files[k]` does.
    pub fn find_index_file(&self, index_files: &Vec<String>, is_file: &Vec<bool>) -> (r: Option<usize>)
        ensures
            match r {
                Some(k) => k < index_files@.len() && k < is_file@.len() && is_file@[k as int]
                    && forall|j: int| 0 <= j < k ==> !#[trigger] is_file@[j],
                None => forall|j: int|
                    0 <= j < index_files@.len() && j < is_file@.len() ==> !#[trigger] is_file@[j],
            },
    {
        let mut k: usize = 0;
        while k < index_files.len() && k < is_file.len()
            invariant
                k <= index_files@.len(),
                forall|j: int| 0 <= j < k && j < is_file@.len() ==> !#[trigger] is_file@[j],
            decreases index_files@.len() - k,
        {
            if is_file[k] {
                return Some(k);
            }
            k += 1;
        }
        None
    }

    /// The weak entity tag, from the file's size and modification time.
    pub fn generate_etag(&self, size: u64, mtime: u64) -> (r: String)
        ensures
            r@ == etag_text(size, mtime),
    {
        let mut t = "W/\"".to_string();
        let a = decimal_text(size);
        t.append(a.as_str());
        t.append("-");
        let b = decimal_text(mtime);
        t.append(b.as_str());
        t.append("\"");
        t
    }

    /// The `Last-Modified` text for a modification time in seconds.
    pub fn format_last_modified(&self, mtime: u64) -> (r: String)
        requires
            mtime < HTTP_DATE_LIMIT,
        ensures
            r@ == http_date_text(mtime as int),
    {
        fmt_http_date(mtime)
    }

    /// The conditional-request rule on already-parsed values.
    pub fn not_modified_since(
        &self,
        if_none_match: Option<&str>,
        etag: &str,
        since: Option<u64>,
        mtime: u64,
    ) -> (r: bool)
        ensures
            r == not_modified(
                match if_none_match {
                    Some(v) => Some(v@),
                    None => None,
                },
                etag@,
                since,
                mtime,
            ),
    {
        if let Some(v) = if_none_match {
            if v.to_string() == etag.to_string() {
                return true;
            }
        }
        match since {
            Some(t) => mtime <= t,
            None => false,
        }
    }

    /// Whether the client's copy of a file of `size` bytes modified at `mtime` is
    /// current, by its `If-None-Match` and `If-Modified-Since` headers.
    pub fn is_not_modified(
        &self,
        if_none_match: Option<&str>,
        if_modified_since: Option<&str>,
        size: u64,
        mtime: u64,
    ) -> (r: bool)
        ensures
            r == not_modified(
                match if_none_match {
                    Some(v) => Some(v@),
                    None => None,
                },
                etag_text(size, mtime),
                match if_modified_since {
                    Some(d) => http_date_secs(d@),
                    None => None,
                },
                mtime,
            ),
    {
        let etag = self.generate_etag(size, mtime);
        let since = match if_modified_since {
            Some(d) => parse_http_date(d),
            None => None,
        };
        self.not_modified_since(if_none_match, etag.as_str(), since, mtime)
    }

    /// The 304 answer: no body.
    pub fn not_modified_response(&self) -> (r: HttpResponse)
        ensures
            r.status == 304,
            r.headers@.len() == 0,
            r.body@.len() == 0,
    {
        ResponseBuilder::new(304).build()
    }

    /// The 200 answer for the file at `path` of `size` bytes modified at `mtime`:
    /// with `content` for GET, without a body for HEAD (`content` is `None`).
    pub fn file_response(&self, path: &str, size: u64, mtime: u64, content: Option<Vec<u8>>) -> (r: HttpResponse)
        ensures
            r.status == 200,
            header_texts(r.headers@) == file_headers(
                path@,
                match content {
                    Some(c) => c@.len(),
                    None => size as nat,
                },
                size,
                mtime,
            ),
            r.body@ == match content {
                Some(c) => c@,
                None => Seq::<u8>::empty(),
            },
    {
        proof {
            reveal_strlit("content-type");
            reveal_strlit("content-length");
            reveal_strlit("etag");
            reveal_strlit("last-modified");
            reveal_strlit("accept-ranges");
        }
        let length: u64 = match &content {
            Some(c) => c.len() as u64,
            None => size,
        };
        let mime = mime_for_path(path);
        let len_text = decimal_text(length);
        let etag = self.generate_etag(size, mtime);
        let b0 = ResponseBuilder::new(200);
        let b1 = b0.header_string("content-type", mime);
        proof {
            lemma_header_appended(b0.headers@, b1.headers@, "content-type"@, mime@);
            assert(b1.headers@[0].0.len() != "content-length"@.len());
        }
        let b2 = b1.header_string("content-length", len_text);
        proof {
            lemma_header_appended(b1.headers@, b2.headers@, "content-length"@, len_text@);
            assert(b2.headers@[0].0.len() != "etag"@.len());
            assert(b2.headers@[1].0.len() != "etag"@.len());
        }
        let b3 = b2.header_string("etag", etag);
        proof {
            lemma_header_appended(b2.headers@, b3.headers@, "etag"@, etag@);
            assert(b3.headers@[0].0.len() != "last-modified"@.len());
            assert(b3.headers@[1].0.len() != "last-modified"@.len());
            assert(b3.headers@[2].0.len() != "last-modified"@.len());
            assert(b3.headers@[0].0.len() != "accept-ranges"@.len());
            assert(b3.headers@[1].0.len() != "accept-ranges"@.len());
            assert(b3.headers@[2].0.len() != "accept-ranges"@.len());
        }
        let b4 = if mtime < HTTP_DATE_LIMIT {
            let date = self.format_last_modified(mtime);
            let b = b3.header_string("last-modified", date);
            proof {
                lemma_header_appended(b3.headers@, b.headers@, "last-modified"@, date@);
                assert(b.headers@[3].0[0] != "accept-ranges"@[0]);
                assert(header_texts(b.headers@) =~= seq![
                    ("content-type"@, guessed_mime(path@)),
                    ("content-length"@, decimal(length as nat)),
                    ("etag"@, etag_text(size, mtime)),
                    ("last-modified"@, http_date_text(mtime as int)),
                ]);
            }
            b
        } else {
            b3
        };
        proof {
            assert(forall|i: int| 0 <= i < b4.headers@.len() ==> #[trigger] b4.headers@[i].0 != "accept-ranges"@);
        }
        let b = b4.header("accept-ranges", "bytes");
        proof {
            lemma_header_appended(b4.headers@, b.headers@, "accept-ranges"@, "bytes"@);
        }
        let body = match content {
            Some(c) => c,
            None => Vec::new(),
        };
        let r = b.body(body).build();
        assert(header_texts(r.headers@) =~= file_headers(path@, length as nat, size, mtime));
        r
    }
}

/// What the file system shows at a path.
#[derive(Clone, Copy, Debug, PartialEq, Eq, Structural)]
pub enum PathKind {
    Missing,
    Directory,
    /// A regular file of `size` bytes, last modified `mtime` seconds after the epoch.
    File { size: u64, mtime: u64 },
}

/// The next step of a static request.
#[derive(Debug)]
pub enum StaticStep {
    Respond(HttpResponse),
    /// Read the file at `path`, then hand the outcome to `file_read`.
    Read { path: String, size: u64, mtime: u64 },
}

/// The file a static request resolves to, from what the file system showed:
/// the target itself, or for a directory its first index file that is a
/// regular file. `k` is the position of that index file (none for the target).
pub open spec fn resolved_file(
    target: PathKind,
    n_index: nat,
    index_kinds: Seq<PathKind>,
    k: Option<usize>,
) -> bool {
    match target {
        PathKind::File { .. } => k is None,
        PathKind::Directory => k matches Some(i) && i < n_index && i < index_kinds.len()
            && index_kinds[i as int] is File && forall|j: int| 0 <= j < i ==> !(#[trigger] index_kinds[j] is File),
        PathKind::Missing => false,
    }
}

/// The size and modification time of the file chosen by `k`.
pub open spec fn chosen_stat(target: PathKind, index_kinds: Seq<PathKind>, k: Option<usize>) -> (u64, u64) {
    let kind = match k {
        Some(i) => index_kinds[i as int],
        None => target,
    };
    match kind {
        PathKind::File { size, mtime } => (size, mtime),
        _ => (0, 0),
    }
}

/// The views of an optional header value.
pub open spec fn opt_view(o: Option<&str>) -> Option<Seq<char>> {
    match o {
        Some(v) => Some(v@),
        None => None,
    }
}

/// The parsed `If-Modified-Since` of an optional header value.
pub open spec fn since_of(o: Option<&str>) -> Option<u64> {
    match o {
        Some(d) => http_date_secs(d@),
        None => None,
    }
}

/// What a static request for a resolved file gives: 304 when the client's
/// copy is current, else 200 at once for HEAD, else a read of the file.
pub open spec fn serves_file(
    r: StaticStep,
    head: bool,
    path: Seq<char>,
    size: u64,
    mtime: u64,
    if_none_match: Option<Seq<char>>,
    since: Option<u64>,
) -> bool {
    if not_modified(if_none_match, etag_text(size, mtime), since, mtime) {
        r matches StaticStep::Respond(resp) && resp.status == 304 && resp.body@.len() == 0
    } else if head {
        r matches StaticStep::Respond(resp) && resp.status == 200 && resp.body@.len() == 0
            && header_texts(resp.headers@) == file_headers(path, size as nat, size, mtime)
    } else {
        r matches StaticStep::Read { path: p, size: sz, mtime: mt } && p@ == path && sz == size
            && mt == mtime
    }
}

impl StaticFileHandler {
    fn index_path(&self, dir: &str, name: &String) -> (r: String)
        ensures
            r@ == dir@ + "/"@ + name@,
    {
        let mut p = dir.to_string();
        p.append("/");
        p.append(name.as_str());
        p
    }

    /// The decisions of a static request after its path was checked: `safe`
    /// tells whether the canonical target lies under the canonical root, `target`
    /// what is at `target_path`, and `index_kinds[k]` what is at index file `k`
    /// inside it. A path outside the root or a directory without an index file is
    /// 403, a missing path 404, a current client copy 304; HEAD is answered at
    /// once, GET after the file is read.
    pub fn resolve(
        &self,
        head: bool,
        target_path: &str,
        safe: bool,
        target: PathKind,
        index_files: &Vec<String>,
        index_kinds: &Vec<PathKind>,
        if_none_match: Option<&str>,
        if_modified_since: Option<&str>,
    ) -> (r: StaticStep)
        ensures
            !safe ==> (r matches StaticStep::Respond(resp) && resp.status == 403),
            safe && target is Missing ==> (r matches StaticStep::Respond(resp) && resp.status == 404),
            safe && target is Directory && (forall|j: int|
                0 <= j < index_files@.len() && j < index_kinds@.len() ==> !(#[trigger] index_kinds@[j] is File))
                ==> (r matches StaticStep::Respond(resp) && resp.status == 403),
            forall|k: Option<usize>|
                safe && #[trigger] resolved_file(target, index_files@.len(), index_kinds@, k) ==> serves_file(
                    r,
                    head,
                    index_choice(target_path@, index_files@, k),
                    chosen_stat(target, index_kinds@, k).0,
                    chosen_stat(target, index_kinds@, k).1,
                    opt_view(if_none_match),
                    since_of(if_modified_since),
                ),
    {
        if !safe {
            return StaticStep::Respond(ErrorResponse::forbidden().build());
        }
        let (path, size, mtime, chosen) = match target {
            PathKind::Missing => return StaticStep::Respond(ErrorResponse::not_found().build()),
            PathKind::File { size, mtime } => (target_path.to_string(), size, mtime, None),
            PathKind::Directory => {
                let mut is_file: Vec<bool> = Vec::new();
                let mut j: usize = 0;
                while j < index_kinds.len()
                    invariant
                        j <= index_kinds@.len(),
                        is_file@.len() == j,
                        forall|m: int| 0 <= m < j ==> #[trigger] is_file@[m] == (index_kinds@[m] is File),
                    decreases index_kinds@.len() - j,
                {
                    is_file.push(matches!(index_kinds[j], PathKind::File { .. }));
                    j += 1;
                }
                match self.find_index_file(index_files, &is_file) {
                    None => {
                        assert forall|k: Option<usize>|
                            !#[trigger] resolved_file(target, index_files@.len(), index_kinds@, k) by {
                            if let Some(i) = k {
                                if i < index_files@.len() && i < index_kinds@.len() {
                                    assert(!is_file@[i as int]);
                                }
                            }
                        }
                        return StaticStep::Respond(ErrorResponse::forbidden().build());
                    },
                    Some(k) => {
                        assert forall|j: int| 0 <= j < k implies !(#[trigger] index_kinds@[j] is File) by {
                            assert(!is_file@[j]);
                        }
                        match index_kinds[k] {
                            PathKind::File { size, mtime } => (
                                self.index_path(target_path, &index_files[k]),
                                size,
                                mtime,
                                Some(k),
                            ),
                            _ => return StaticStep::Respond(ErrorResponse::forbidden().build()),
                        }
                    },
                }
            },
        };
        proof {
            assert(resolved_file(target, index_files@.len(), index_kinds@, chosen));
            assert(index_choice(target_path@, index_files@, chosen) == path@);
            assert(chosen_stat(target, index_kinds@, chosen) == (size, mtime));
            assert forall|k: Option<usize>| #[trigger]
                resolved_file(target, index_files@.len(), index_kinds@, k) implies k == chosen by {
                if let Some(i) = k {
                    let c = chosen->0;
                    if i < c {
                        assert(!(index_kinds@[i as int] is File));
                    } else if i > c {
                        assert(!(index_kinds@[c as int] is File));
                    }
                }
            }
        }
        let r = if self.is_not_modified(if_none_match, if_modified_since, size, mtime) {
            StaticStep::Respond(self.not_modified_response())
        } else if head {
            StaticStep::Respond(self.file_response(path.as_str(), size, mtime, None))
        } else {
            StaticStep::Read { path, size, mtime }
        };
        r
    }

    /// The answer once the file was read: 200 with its bytes, or 500 when the
    /// read failed.
    pub fn file_read(&self, path: &str, size: u64, mtime: u64, content: Option<Vec<u8>>) -> (r: HttpResponse)
        ensures
            read_answer(
                path@,
                size,
                mtime,
                match content {
                    Some(c) => Some(c@),
                    None => None,
                },
                r,
            ),
    {
        match content {
            Some(c) => self.file_response(path, size, mtime, Some(c)),
            None => ErrorResponse::internal_server_error().build(),
        }
    }
}

/// The answer once the file at `path` was read: 200 with its bytes and file
/// headers, or 500 when the read failed (`content` is none).
pub open spec fn read_answer(
    path: Seq<char>,
    size: u64,
    mtime: u64,
    content: Option<Seq<u8>>,
    r: HttpResponse,
) -> bool {
    match content {
        None => r.status == 500,
        Some(c) => r.status == 200 && r.body@ == c && header_texts(r.headers@) == file_headers(
            path,
            c.len(),
            size,
            mtime,
        ),
    }
}

/// A GET for a directory whose first index file is a regular file, without
/// conditional headers: `resolve` (inside the document root) asks to read that
/// file, and once its bytes `content` are read `file_read` answers 200 with
/// them and the content type guessed from the file's name.
pub proof fn lemma_index_file_served(
    target_path: Seq<char>,
    index_files: Seq<String>,
    index_kinds: Seq<PathKind>,
    size: u64,
    mtime: u64,
    step: StaticStep,
    content: Seq<u8>,
    resp: HttpResponse,
)
    requires
        index_files.len() > 0,
        index_kinds.len() > 0,
        index_kinds[0] == (PathKind::File { size, mtime }),
        forall|k: Option<usize>| #[trigger]
            resolved_file(PathKind::Directory, index_files.len(), index_kinds, k) ==> serves_file(
                step,
                false,
                index_choice(target_path, index_files, k),
                chosen_stat(PathKind::Directory, index_kinds, k).0,
                chosen_stat(PathKind::Directory, index_kinds, k).1,
                None,
                None,
            ),
        step matches StaticStep::Read { path, size: sz, mtime: mt } ==> read_answer(
            path@,
            sz,
            mt,
            Some(content),
            resp,
        ),
    ensures
        step matches StaticStep::Read { path, .. } && path@ == target_path + "/"@ + index_files[0]@,
        resp.status == 200,
        resp.body@ == content,
        header_texts(resp.headers@)[0] == ("content-type"@, guessed_mime(
            target_path + "/"@ + index_files[0]@,
        )),
{
    assert(resolved_file(PathKind::Directory, index_files.len(), index_kinds, Some(0usize)));
}

/// The path a static request reads: the target, or its index file `k`.
pub open spec fn index_choice(target_path: Seq<char>, index_files: Seq<String>, k: Option<usize>) -> Seq<char> {
    match k {
        Some(i) => target_path + "/"@ + index_files[i as int]@,
        None => target_path,
    }
}

fn has_parent_segment(s: &str) -> (r: bool)
    ensures
        r == exists|i: int| parent_segment_at(s@, i),
{
    let n = s.unicode_len();
    if n < 2 {
        return false;
    }
    let mut i: usize = 0;
    while i <= n - 2
        invariant
            n == s@.len(),
            n >= 2,
            i <= n - 1,
            forall|j: int| 0 <= j < i ==> !parent_segment_at(s@, j),
        decreases n - i,
    {
        if s.get_char(i) == '.' && s.get_char(i + 1) == '.' && (i == 0 || s.get_char(i - 1) == '/')
            && (i + 2 == n || s.get_char(i + 2) == '/') {
            assert(parent_segment_at(s@, i as int));
            return true;
        }
        i += 1;
    }
    false
}

fn contains_nul(s: &str) -> (r: bool)
    ensures
        r == s@.contains('\0'),
{
    let n = s.unicode_len();
    let mut i: usize = 0;
    while i < n
        invariant
            n == s@.len(),
            i <= n,
            forall|j: int| 0 <= j < i ==> s@[j] != '\0',
        decreases n - i,
    {
        if s.get_char(i) == '\0' {
            return true;
        }
        i += 1;
    }
    false
}

/// Echoing a file's entity tag in `If-None-Match` always gives 304, whatever
/// `If-Modified-Since` says, as long as the file keeps its size and time.
pub proof fn lemma_etag_round_trip(path: Seq<char>, length: nat, size: u64, mtime: u64, since: Option<u64>)
    ensures
        file_headers(path, length, size, mtime)[2] == ("etag"@, etag_text(size, mtime)),
        not_modified(Some(file_headers(path, length, size, mtime)[2].1), etag_text(size, mtime), since, mtime),
{
}

/// Stripping leading slashes keeps every parent-directory segment and NUL, so a
/// decoded path that tries to leave the document root is refused by
/// `check_request` before any file-system access, whatever the root.
pub proof fn lemma_traversal_survives_trim(d: Seq<char>)
    ensures
        traversal(d) ==> traversal(trim_slashes(d)),
    decreases d.len(),
{
    if d.len() > 0 && d[0] == '/' {
        let t = d.drop_first();
        lemma_traversal_survives_trim(t);
        if traversal(d) {
            if exists|i: int| parent_segment_at(d, i) {
                let i = choose|i: int| parent_segment_at(d, i);
                assert(parent_segment_at(t, i - 1));
            } else {
                let k = choose|k: int| 0 <= k < d.len() && d[k] == '\0';
                assert(t[k - 1] == '\0');
            }
        }
    }
}

} // verus!
