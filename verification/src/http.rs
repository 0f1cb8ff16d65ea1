//! The HTTP side of the viewer: reading the request line, choosing a handler,
//! and writing response heads.

use vstd::prelude::*;
use vstd::utf8::encode_utf8;
use crate::number::{decimal, push_decimal};
use crate::text::{
    chars_of, find_char, first_index_of, lemma_first_index_of, push_char, starts_with, str_eq,
    string_from_range,
};
use crate::url::{string_from_utf8_lossy, url_decode, url_decode_spec, utf8_lossy};

verus! {

/// A complete response with an HTML body: status line, the fixed headers,
/// a `Content-Length` of `body_len` and the body.
pub open spec fn response_spec(status: u16, reason: Seq<char>, body_len: nat, body: Seq<char>) -> Seq<char> {
    "HTTP/1.1 "@ + decimal(status as nat) + seq![' '] + reason + "\r\nContent-Length: "@
        + decimal(body_len)
        + "\r\nContent-Type: text/html; charset=utf-8\r\nCache-Control: no-cache, no-store, must-revalidate\r\nPragma: no-cache\r\nExpires: 0\r\nConnection: close\r\n\r\n"@
        + body
}

/// The length in bytes of a text's UTF-8 form, as `str::len` gives it.
pub open spec fn content_length(body: Seq<char>) -> nat {
    (encode_utf8(body).len() as usize) as nat
}

/// A complete response with an HTML body and its true `Content-Length`.
pub open spec fn html_response(status: u16, reason: Seq<char>, body: Seq<char>) -> Seq<char> {
    response_spec(status, reason, content_length(body), body)
}

/// A `302 Found` response pointing at `location`.
pub open spec fn redirect_spec(location: Seq<char>) -> Seq<char> {
    "HTTP/1.1 302 Found\r\nLocation: "@ + location
        + "\r\nContent-Length: 0\r\nConnection: close\r\n\r\n"@
}

/// The text of a response with an HTML body. `Content-Length` is the body's
/// length in bytes (`str::len`, the length of its UTF-8 form).
pub fn http_response(status: u16, reason: &str, body: &str) -> (r: String)
    ensures
        r@ == html_response(status, reason@, body@),
{
    let mut out = String::new();
    out.append("HTTP/1.1 ");
    push_decimal(&mut out, status as u128);
    push_char(&mut out, ' ');
    out.append(reason);
    out.append("\r\nContent-Length: ");
    push_decimal(&mut out, body.len() as u128);
    out.append(
        "\r\nContent-Type: text/html; charset=utf-8\r\nCache-Control: no-cache, no-store, must-revalidate\r\nPragma: no-cache\r\nExpires: 0\r\nConnection: close\r\n\r\n",
    );
    out.append(body);
    out
}

/// The text of a redirect to `location`.
pub fn redirect_response(location: &str) -> (r: String)
    ensures
        r@ == redirect_spec(location@),
{
    let mut out = String::new();
    out.append("HTTP/1.1 302 Found\r\nLocation: ");
    out.append(location);
    out.append("\r\nContent-Length: 0\r\nConnection: close\r\n\r\n");
    out
}

/// The reply to a request for the site icon: there is none.
pub fn favicon_response() -> (r: String)
    ensures
        r@ == html_response(404, "Not Found"@, ""@),
{
    let r = http_response(404, "Not Found", "");
    proof {
        reveal_strlit("");
    }
    r
}

/// The reply to a method other than GET and HEAD.
pub fn method_not_allowed_response() -> (r: String)
    ensures
        r@ == html_response(405, "Method Not Allowed"@, ""@),
{
    let r = http_response(405, "Method Not Allowed", "");
    proof {
        reveal_strlit("");
    }
    r
}

/// The method: the request text up to its first space (all of it without one).
pub open spec fn request_method(req: Seq<char>) -> Seq<char> {
    match first_index_of(req, ' ') {
        Some(i) => req.take(i),
        None => req,
    }
}

/// The request target: the text between the first and the second space
/// (to the end without a second space), or `/` when there is no space.
pub open spec fn request_target(req: Seq<char>) -> Seq<char> {
    match first_index_of(req, ' ') {
        Some(i) => {
            let rest = req.skip(i + 1);
            match first_index_of(rest, ' ') {
                Some(j) => rest.take(j),
                None => rest,
            }
        },
        None => seq!['/'],
    }
}

/// The part of a target before its first `?`.
pub open spec fn target_path(t: Seq<char>) -> Seq<char> {
    match first_index_of(t, '?') {
        Some(j) => t.take(j),
        None => t,
    }
}

/// The part of a target after its first `?`, if it has one.
pub open spec fn target_query(t: Seq<char>) -> Option<Seq<char>> {
    match first_index_of(t, '?') {
        Some(j) => Some(t.skip(j + 1)),
        None => None,
    }
}

/// What the viewer reads from a request: its method, its decoded path and
/// its raw query string.
pub struct Request {
    pub method: String,
    pub path: String,
    pub query: Option<String>,
}

/// Whether `r` is what the request text `req` says.
pub open spec fn request_of(req: Seq<char>, r: Request) -> bool {
    &&& r.method@ == request_method(req)
    &&& r.path@ == url_decode_spec(target_path(request_target(req)))
    &&& match target_query(request_target(req)) {
        Some(q) => r.query matches Some(s) && s@ == q,
        None => r.query is None,
    }
}

/// Reads the method, path and query out of the request text.
pub fn parse_request_text(req: &str) -> (r: Request)
    ensures
        request_of(req@, r),
{
    let cs = chars_of(req);
    proof {
        lemma_first_index_of(cs@, ' ');
    }
    let first_space = find_char(&cs, ' ');
    let (method, target) = match first_space {
        Some(i) => {
            let n = cs.len();
            let method = string_from_range(&cs, 0, i);
            let rest = string_from_range(&cs, i + 1, n);
            let rcs = chars_of(rest.as_str());
            assert(rcs@ == cs@.skip(i + 1));
            let second_space = find_char(&rcs, ' ');
            let target = match second_space {
                Some(j) => string_from_range(&rcs, 0, j),
                None => rest,
            };
            assert(first_index_of(req@, ' ') == Some(i as int));
            assert(target@ == request_target(req@)) by {
                assert(rcs@.subrange(0, rcs@.len() as int) == rcs@);
                assert(rcs@ == req@.skip(i + 1));
                match second_space {
                    Some(j) => {
                        assert(target@ == rcs@.take(j as int));
                    },
                    None => {},
                }
            }
            assert(method@ == cs@.take(i as int));
            (method, target)
        },
        None => {
            let mut t = String::new();
            push_char(&mut t, '/');
            assert(t@ == request_target(req@));
            (string_from_range(&cs, 0, cs.len()), t)
        },
    };
    assert(cs@.subrange(0, cs@.len() as int) == cs@);
    let tcs = chars_of(target.as_str());
    let (p, q) = match find_char(&tcs, '?') {
        Some(j) => (string_from_range(&tcs, 0, j), Some(string_from_range(&tcs, j + 1, tcs.len()))),
        None => (target, None),
    };
    Request { method, path: url_decode(p.as_str()), query: q }
}

/// Reads a request from the bytes received, decoding them leniently as UTF-8.
pub fn parse_request(raw: &[u8]) -> (r: Request)
    ensures
        request_of(utf8_lossy(raw@), r),
{
    let text = string_from_utf8_lossy(raw);
    parse_request_text(text.as_str())
}

/// The handler a request goes to.
pub enum Route {
    /// A directory listing (`/` or `/list/...`).
    List,
    /// The site icon, which does not exist.
    Favicon,
    /// A PDF export (`/pdf/...`).
    Pdf,
    /// A jump to a typed-in path (`/navigate`).
    Navigate,
    /// A file preview (any other path).
    File,
    /// A method other than GET and HEAD.
    MethodNotAllowed,
}

/// The handler for a method and decoded path.
pub open spec fn route_spec(method: Seq<char>, path: Seq<char>) -> Route {
    if method == "GET"@ || method == "HEAD"@ {
        if path == "/"@ || "/list/"@.is_prefix_of(path) {
            Route::List
        } else if path == "/favicon.ico"@ {
            Route::Favicon
        } else if "/pdf/"@.is_prefix_of(path) {
            Route::Pdf
        } else if path == "/navigate"@ {
            Route::Navigate
        } else {
            Route::File
        }
    } else {
        Route::MethodNotAllowed
    }
}

/// Chooses the handler for a method and decoded path.
pub fn route(method: &str, path: &str) -> (r: Route)
    ensures
        r == route_spec(method@, path@),
{
    if str_eq(method, "GET") || str_eq(method, "HEAD") {
        if str_eq(path, "/") || starts_with(path, "/list/") {
            Route::List
        } else if str_eq(path, "/favicon.ico") {
            Route::Favicon
        } else if starts_with(path, "/pdf/") {
            Route::Pdf
        } else if str_eq(path, "/navigate") {
            Route::Navigate
        } else {
            Route::File
        }
    } else {
        Route::MethodNotAllowed
    }
}

} // verus!
