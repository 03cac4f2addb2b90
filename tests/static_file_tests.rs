use rustweb::static_files::{StaticError, StaticFileHandler};

#[test]
fn test_sanitize_path() {
    let handler = StaticFileHandler::new();

    assert_eq!(handler.sanitize_path("/index.html").unwrap(), "index.html");
    assert_eq!(handler.sanitize_path("/css/style.css").unwrap(), "css/style.css");
    assert!(handler.sanitize_path("/../etc/passwd").is_err());
    assert!(handler.sanitize_path("/file\0.txt").is_err());
}

#[test]
fn traversal_is_forbidden_before_any_file_access() {
    let h = StaticFileHandler::new();
    assert_eq!(h.check_request("GET", "/../etc/passwd"), Err(StaticError::Forbidden));
    assert_eq!(h.check_request("GET", "/file\0.txt"), Err(StaticError::Forbidden));
    assert_eq!(h.check_request("GET", "/%2e%2e/etc/passwd"), Err(StaticError::Forbidden));
    assert_eq!(h.check_request("HEAD", "/a/%00b"), Err(StaticError::Forbidden));
}

#[test]
fn percent_escapes_are_decoded() {
    let h = StaticFileHandler::new();
    assert_eq!(h.sanitize_path("//a%20b.txt").unwrap(), "a b.txt");
    assert_eq!(h.sanitize_path("/%ff"), Err(StaticError::BadEncoding));
}

#[test]
fn only_get_and_head_are_served() {
    let h = StaticFileHandler::new();
    assert_eq!(h.check_request("POST", "/index.html"), Err(StaticError::MethodNotAllowed));
    assert_eq!(h.check_request("HEAD", "/index.html").unwrap(), "index.html");
    assert_eq!(StaticError::MethodNotAllowed.status(), 405);
    assert_eq!(StaticError::Forbidden.response().status, 403);
    assert_eq!(StaticError::BadEncoding.status(), 400);
    assert_eq!(StaticError::NotFound.status(), 404);
}

#[test]
fn containment_is_by_path_components() {
    let h = StaticFileHandler::new();
    let root = vec!["var".to_string(), "www".to_string()];
    let inside = vec!["var".to_string(), "www".to_string(), "a.html".to_string()];
    let sibling = vec!["var".to_string(), "www2".to_string(), "a.html".to_string()];
    assert!(h.is_safe_path(&inside, &root));
    assert!(!h.is_safe_path(&sibling, &root));
    assert!(!h.is_safe_path(&vec!["var".to_string()], &root));
}

#[test]
fn first_existing_index_file_wins() {
    let h = StaticFileHandler::new();
    let names = vec!["index.html".to_string(), "index.htm".to_string()];
    assert_eq!(h.find_index_file(&names, &vec![false, true]), Some(1));
    assert_eq!(h.find_index_file(&names, &vec![true, true]), Some(0));
    assert_eq!(h.find_index_file(&names, &vec![false, false]), None);
}

#[test]
fn etag_and_dates() {
    let h = StaticFileHandler::new();
    assert_eq!(h.generate_etag(1234, 1700000000), "W/\"1234-1700000000\"");
    assert_eq!(h.format_last_modified(0), "Thu, 01 Jan 1970 00:00:00 GMT");
    assert_eq!(h.format_last_modified(1431704061), "Fri, 15 May 2015 15:34:21 GMT");
}

#[test]
fn echoed_etag_gives_not_modified() {
    let h = StaticFileHandler::new();
    let first = h.file_response("/srv/a.txt", 5, 1000, Some(b"hello".to_vec()));
    assert_eq!(first.status, 200);
    let etag = first.headers.get("etag").unwrap().clone();
    assert!(h.is_not_modified(Some(etag.as_str()), None, 5, 1000));
    let second = h.not_modified_response();
    assert_eq!(second.status, 304);
    assert!(second.body.is_empty());
    assert!(!h.is_not_modified(Some(etag.as_str()), None, 6, 1000));
    assert!(!h.is_not_modified(None, None, 5, 1000));
}

#[test]
fn if_modified_since_compares_seconds() {
    let h = StaticFileHandler::new();
    let date = "Fri, 15 May 2015 15:34:21 GMT";
    assert!(h.is_not_modified(None, Some(date), 10, 1431704061));
    assert!(h.is_not_modified(None, Some(date), 10, 1431704000));
    assert!(!h.is_not_modified(None, Some(date), 10, 1431704062));
    assert!(!h.is_not_modified(None, Some("not a date"), 10, 0));
    assert!(h.not_modified_since(Some("x"), "x", None, 5));
}

#[test]
fn file_response_headers() {
    let h = StaticFileHandler::new();
    let r = h.file_response("/srv/index.html", 3, 0, Some(b"abc".to_vec()));
    assert_eq!(r.headers.get("content-type").unwrap(), "text/html");
    assert_eq!(r.headers.get("content-length").unwrap(), "3");
    assert_eq!(r.headers.get("etag").unwrap(), "W/\"3-0\"");
    assert_eq!(r.headers.get("last-modified").unwrap(), "Thu, 01 Jan 1970 00:00:00 GMT");
    assert_eq!(r.headers.get("accept-ranges").unwrap(), "bytes");
    assert_eq!(r.body, b"abc".to_vec());

    let head = h.file_response("/srv/data.bin", 42, 0, None);
    assert_eq!(head.headers.get("content-type").unwrap(), "application/octet-stream");
    assert_eq!(head.headers.get("content-length").unwrap(), "42");
    assert!(head.body.is_empty());
}

#[test]
fn only_whole_dot_dot_segments_are_traversal() {
    let h = StaticFileHandler::new();
    assert_eq!(h.sanitize_path("/file..txt").unwrap(), "file..txt");
    assert_eq!(h.sanitize_path("/a/.../b").unwrap(), "a/.../b");
    assert_eq!(h.sanitize_path("/a/.."), Err(StaticError::Forbidden));
    assert_eq!(h.sanitize_path("/a/../b"), Err(StaticError::Forbidden));
    assert_eq!(h.sanitize_path(".."), Err(StaticError::Forbidden));
}

use rustweb::static_files::{PathKind, StaticStep};

fn status_of(step: &StaticStep) -> Option<u16> {
    match step {
        StaticStep::Respond(r) => Some(r.status),
        StaticStep::Read { .. } => None,
    }
}

#[test]
fn resolve_follows_the_file_system() {
    let h = StaticFileHandler::new();
    let idx = vec!["index.html".to_string(), "index.htm".to_string()];
    let file = PathKind::File { size: 3, mtime: 10 };
    let s = h.resolve(false, "/srv/a", false, file, &idx, &vec![], None, None);
    assert_eq!(status_of(&s), Some(403));
    let s = h.resolve(false, "/srv/a", true, PathKind::Missing, &idx, &vec![], None, None);
    assert_eq!(status_of(&s), Some(404));
    let s = h.resolve(false, "/srv", true, PathKind::Directory, &idx, &vec![PathKind::Missing, PathKind::Directory], None, None);
    assert_eq!(status_of(&s), Some(403));
    let s = h.resolve(false, "/srv", true, PathKind::Directory, &idx, &vec![PathKind::Missing, file], None, None);
    match s {
        StaticStep::Read { path, size, mtime } => {
            assert_eq!(path, "/srv/index.htm");
            assert_eq!((size, mtime), (3, 10));
        },
        other => panic!("unexpected {:?}", other),
    }
    let s = h.resolve(true, "/srv/a.css", true, file, &idx, &vec![], None, None);
    match s {
        StaticStep::Respond(r) => {
            assert_eq!(r.status, 200);
            assert!(r.body.is_empty());
            assert_eq!(r.headers.get("content-length").unwrap(), "3");
            assert_eq!(r.headers.get("content-type").unwrap(), "text/css");
        },
        other => panic!("unexpected {:?}", other),
    }
    let s = h.resolve(false, "/srv/a.css", true, file, &idx, &vec![], Some("W/\"3-10\""), None);
    assert_eq!(status_of(&s), Some(304));
    assert_eq!(h.file_read("/srv/a.css", 3, 10, None).status, 500);
    assert_eq!(h.file_read("/srv/a.css", 3, 10, Some(b"a{}".to_vec())).body, b"a{}".to_vec());
}
