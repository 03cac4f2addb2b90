use crate::text::str_ends_with;
use vstd::prelude::*;

verus! {

/// Resources to push alongside HTTP/2 responses.
#[derive(Debug)]
pub struct Http2PushHandler {
    pub push_resources: Vec<String>,
}

impl Http2PushHandler {
    pub fn new() -> (r: Self)
        ensures
            r.push_resources@.len() == 0,
    {
        Http2PushHandler { push_resources: Vec::new() }
    }

    pub fn add_push_resource(&mut self, path: String)
        ensures
            final(self).push_resources@ == old(self).push_resources@.push(path),
    {
        self.push_resources.push(path);
    }
}

impl Default for Http2PushHandler {
    fn default() -> (r: Self)
        ensures
            r.push_resources@.len() == 0,
    {
        Http2PushHandler::new()
    }
}

/// The content type of a file by its extension, for the common web types.
pub open spec fn content_type_by_extension(p: Seq<char>) -> Seq<char> {
    if ".html"@.is_suffix_of(p) || ".htm"@.is_suffix_of(p) {
        "text/html; charset=utf-8"@
    } else if ".css"@.is_suffix_of(p) {
        "text/css"@
    } else if ".js"@.is_suffix_of(p) {
        "application/javascript"@
    } else if ".json"@.is_suffix_of(p) {
        "application/json"@
    } else if ".png"@.is_suffix_of(p) {
        "image/png"@
    } else if ".jpg"@.is_suffix_of(p) || ".jpeg"@.is_suffix_of(p) {
        "image/jpeg"@
    } else if ".gif"@.is_suffix_of(p) {
        "image/gif"@
    } else if ".svg"@.is_suffix_of(p) {
        "image/svg+xml"@
    } else if ".ico"@.is_suffix_of(p) {
        "image/x-icon"@
    } else {
        "application/octet-stream"@
    }
}

/// The content type of `file_path` by its extension.
pub fn get_content_type(file_path: &str) -> (r: &'static str)
    ensures
        r@ == content_type_by_extension(file_path@),
{
    if str_ends_with(file_path, ".html") || str_ends_with(file_path, ".htm") {
        "text/html; charset=utf-8"
    } else if str_ends_with(file_path, ".css") {
        "text/css"
    } else if str_ends_with(file_path, ".js") {
        "application/javascript"
    } else if str_ends_with(file_path, ".json") {
        "application/json"
    } else if str_ends_with(file_path, ".png") {
        "image/png"
    } else if str_ends_with(file_path, ".jpg") || str_ends_with(file_path, ".jpeg") {
        "image/jpeg"
    } else if str_ends_with(file_path, ".gif") {
        "image/gif"
    } else if str_ends_with(file_path, ".svg") {
        "image/svg+xml"
    } else if str_ends_with(file_path, ".ico") {
        "image/x-icon"
    } else {
        "application/octet-stream"
    }
}

} // verus!
