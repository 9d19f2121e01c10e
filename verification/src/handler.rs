//! Handlers: each turns a request (with the documents the caller looked
//! up for it) into a response.
//!
//! Document loading itself is input/output at the process edge, so every
//! handler takes the already-loaded document content as an argument: the
//! static file handler the target file and the not-found page, the web
//! service handler the raw orders document.
use crate::http_response::HttpResponse;
use crate::text::{ends_with, split_on, split_str, str_ends_with, str_eq};
use vstd::prelude::*;

verus! {

/// Serves files from the static root by the first path segment.
pub struct StaticFileHandler;

/// Serves the orders collection as JSON under the one recognized path.
pub struct WebServiceHandler;

/// Answers 404 with the not-found page.
pub struct PageNotFoundHandler;

/// One order record of the external orders document.
#[derive(Debug, PartialEq, Eq)]
pub struct OrderStatus {
    pub order_id: String,
    pub order_date: String,
    pub order_status: String,
}

/// Segment 1 of a path: the part between the leading slash and the next
/// one, empty for the root path or a path without slashes.
pub open spec fn path_seg1(path: Seq<char>) -> Seq<char> {
    let segs = split_on(path, '/');
    if segs.len() > 1 {
        segs[1]
    } else {
        Seq::empty()
    }
}

/// The file that a path's first segment names: the index page for the
/// root, the health page for `health`, and the segment itself otherwise.
pub open spec fn target_of(path: Seq<char>) -> Seq<char> {
    let seg = path_seg1(path);
    if seg.len() == 0 {
        "index.html"@
    } else if seg == "health"@ {
        "health.html"@
    } else {
        seg
    }
}

/// The content type a filename's suffix fixes; every unmapped suffix
/// defaults to `text/html`.
pub open spec fn content_type_of(name: Seq<char>) -> Seq<char> {
    if ends_with(name, ".css"@) {
        "text/css"@
    } else if ends_with(name, ".js"@) {
        "text/javascript"@
    } else if ends_with(name, ".html"@) {
        "text/html"@
    } else if ends_with(name, ".png"@) {
        "image/png"@
    } else if ends_with(name, ".jpg"@) {
        "image/jpeg"@
    } else if ends_with(name, ".gif"@) {
        "image/gif"@
    } else {
        "text/html"@
    }
}

/// Segment 1 of a path, executable form.
pub fn first_segment(path: &str) -> (r: String)
    ensures
        r@ == path_seg1(path@),
{
    let segs = split_str(path, '/');
    if segs.len() > 1 {
        proof {
            assert(segs.deep_view()[1] == segs@[1]@);
        }
        segs[1].clone()
    } else {
        String::new()
    }
}

/// The content type for a filename, from the suffix table.
pub fn content_type_for(name: &str) -> (r: &'static str)
    ensures
        r@ == content_type_of(name@),
{
    if str_ends_with(name, ".css") {
        "text/css"
    } else if str_ends_with(name, ".js") {
        "text/javascript"
    } else if str_ends_with(name, ".html") {
        "text/html"
    } else if str_ends_with(name, ".png") {
        "image/png"
    } else if str_ends_with(name, ".jpg") {
        "image/jpeg"
    } else if str_ends_with(name, ".gif") {
        "image/gif"
    } else {
        "text/html"
    }
}

impl PageNotFoundHandler {
    /// A 404 response carrying the not-found page (or nothing when that
    /// page itself is missing), with the default headers.
    pub fn handle(not_found_page: Option<String>) -> (r: HttpResponse)
        ensures
            r.version@ == "HTTP/1.1"@,
            r.status_code == 404,
            r.status_message@ == "Not Found"@,
            r.body == not_found_page,
            (r.headers matches Some(h) && h@.len() == 1 && h@[0].0@ == "Content-Type"@
                && h@[0].1@ == "text/html"@),
    {
        HttpResponse::new(404, None, not_found_page)
    }
}

impl StaticFileHandler {
    /// The file the request's path asks for.
    pub fn target_file(path: &str) -> (r: String)
        ensures
            r@ == target_of(path@),
    {
        let seg = first_segment(path);
        if seg.as_str().unicode_len() == 0 {
            String::from_str("index.html")
        } else if str_eq(seg.as_str(), "health") {
            String::from_str("health.html")
        } else {
            seg
        }
    }

    /// Builds the response for a static file request: 200 with the
    /// loaded content and the suffix-inferred content type, or 404 with
    /// the not-found page when the file was absent.
    pub fn handle(path: &str, contents: Option<String>, not_found_page: Option<String>) -> (r:
        HttpResponse)
        ensures
            contents is Some ==> (r.status_code == 200 && r.status_message@ == "OK"@ && r.body
                == contents && (r.headers matches Some(h) && h@.len() == 1 && h@[0].0@
                == "Content-Type"@ && h@[0].1@ == content_type_of(target_of(path@)))),
            contents is None ==> (r.status_code == 404 && r.status_message@ == "Not Found"@
                && r.body == not_found_page && (r.headers matches Some(h) && h@.len() == 1
                && h@[0].0@ == "Content-Type"@ && h@[0].1@ == "text/html"@)),
            r.version@ == "HTTP/1.1"@,
    {
        match contents {
            Some(c) => {
                let target = StaticFileHandler::target_file(path);
                let ct = content_type_for(target.as_str());
                let mut h: Vec<(String, String)> = Vec::new();
                h.push((String::from_str("Content-Type"), String::from_str(ct)));
                HttpResponse::new(200, Some(h), Some(c))
            },
            None => {
                let mut h: Vec<(String, String)> = Vec::new();
                h.push((String::from_str("Content-Type"), String::from_str("text/html")));
                HttpResponse::new(404, Some(h), not_found_page)
            },
        }
    }
}

/// What re-encoding the orders document gives: the document parsed as a
/// JSON array of string-valued records and written back out, or nothing
/// when the document is not such an array.  The result depends on the
/// text alone.
pub uninterp spec fn orders_json_reencoded(s: Seq<char>) -> Option<Seq<char>>;

/// Relies on serde_json::from_str and serde_json::to_string: the first
/// parses the text as an array of objects with string values, the second
/// writes that array back out; both depend on the text alone.
#[verifier::external_body]
fn reencode_orders(s: &str) -> (r: Option<String>)
    ensures
        r is Some <==> orders_json_reencoded(s@) is Some,
        (match r {
            Some(t) => orders_json_reencoded(s@) == Some(t@),
            None => orders_json_reencoded(s@) is None,
        }),
{
    let records: Vec<std::collections::BTreeMap<String, String>> =
        match serde_json::from_str(s) {
            Ok(v) => v,
            Err(_) => {
                return None;
            },
        };
    serde_json::to_string(&records).ok()
}

impl WebServiceHandler {
    /// Answers the one recognized path `/api/shipping/orders` with the
    /// re-encoded orders document as JSON; a missing or malformed
    /// document gives 500 rather than failing, and every other path gets
    /// the not-found response.
    pub fn handle(path: &str, orders_doc: Option<&str>, not_found_page: Option<String>) -> (r:
        HttpResponse)
        ensures
            r.version@ == "HTTP/1.1"@,
            path@ != "/api/shipping/orders"@ ==> (r.status_code == 404 && r.status_message@
                == "Not Found"@ && r.body == not_found_page),
            path@ == "/api/shipping/orders"@ ==> (match orders_doc {
                Some(d) => match orders_json_reencoded(d@) {
                    Some(b) => r.status_code == 200 && r.status_message@ == "OK"@ && (r.body
                        matches Some(bb) && bb@ == b) && (r.headers matches Some(h) && h@.len()
                        == 1 && h@[0].0@ == "Content-Type"@ && h@[0].1@ == "application/json"@),
                    None => r.status_code == 500 && r.status_message@
                        == "Internal Server Error"@ && r.body is None,
                },
                None => r.status_code == 500 && r.status_message@ == "Internal Server Error"@
                    && r.body is None,
            }),
    {
        if str_eq(path, "/api/shipping/orders") {
            match orders_doc {
                Some(doc) => {
                    match reencode_orders(doc) {
                        Some(body) => {
                            let mut h: Vec<(String, String)> = Vec::new();
                            h.push((
                                String::from_str("Content-Type"),
                                String::from_str("application/json"),
                            ));
                            HttpResponse::new(200, Some(h), Some(body))
                        },
                        None => HttpResponse::new(500, None, None),
                    }
                },
                None => HttpResponse::new(500, None, None),
            }
        } else {
            PageNotFoundHandler::handle(not_found_page)
        }
    }
}

} // verus!
