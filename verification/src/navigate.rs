//! Jumping to a typed-in path: `/navigate?path=...` redirects to the
//! directory page or file preview of the path, or of its parent directory
//! when the path does not exist.
//!
//! Whether a path is a directory or a file is learnt from the file system by
//! the caller between the steps here.

use vstd::prelude::*;
use crate::html::html_escape;
use crate::http::{
    html_response, http_response, redirect_response, redirect_spec, route_spec, Route,
};
use crate::pages::{
    list_current_spec, not_found_spec, BACK_LINK, BACK_LINK_REST, BACK_PARAGRAPH, NOT_FOUND_OPEN,
    PATH_MISSING,
};
use crate::paths::{
    backslash_parent, is_backslash_path, is_plain_name, is_relative_path, is_root_path,
    lemma_backslash_parent_not_empty, parent_fits, parent_of,
};
use crate::sidebar::{
    lemma_top_dir_link, lemma_top_file_link, opt_view, sidebar_dir, sidebar_dir_spec,
};
use crate::text::{
    append_string, chars_of, first_index_of, lemma_first_index_of, lemma_trim_end_idempotent,
    replace_char, replace_char_spec, string_from_range, trim_end_char, trim_end_spec,
};
use crate::url::{
    lemma_url_decode_of_utf8, url_decode, url_decode_spec, url_encode_path, url_encode_spec,
};

verus! {

/// The value of the first `path=` pair of a query string (pairs are split
/// at `&`).
pub open spec fn path_param(q: Seq<char>) -> Option<Seq<char>>
    decreases q.len(),
{
    match first_index_of(q, '&') {
        Some(i) => {
            proof {
                lemma_first_index_of(q, '&');
            }
            let seg = q.take(i);
            if "path="@.is_prefix_of(seg) {
                Some(seg.skip(5))
            } else {
                path_param(q.skip(i + 1))
            }
        },
        None => if "path="@.is_prefix_of(q) {
            Some(q.skip(5))
        } else {
            None
        },
    }
}

/// The path asked for: the decoded `path` parameter, or nothing.
pub open spec fn navigate_target_spec(query: Option<Seq<char>>) -> Seq<char> {
    match query {
        Some(q) => match path_param(q) {
            Some(v) => url_decode_spec(v),
            None => seq![],
        },
        None => seq![],
    }
}

/// The path asked for, with `/` separators and no trailing slash.
pub open spec fn normalized_spec(target: Seq<char>) -> Seq<char> {
    trim_end_spec(replace_char_spec(target, '\\', '/'), '/')
}

pub const BAD_REQUEST_BODY: &'static str = "<h1>400</h1><p>缺少 path 参数</p>";

/// The first five characters of `cs[from..to]` are `path=`.
fn has_path_key(cs: &Vec<char>, from: usize, to: usize) -> (r: bool)
    requires
        from <= to <= cs@.len(),
    ensures
        r == "path="@.is_prefix_of(cs@.subrange(from as int, to as int)),
        r ==> to - from >= 5,
        "path="@.len() == 5,
{
    proof {
        reveal_strlit("path=");
    }
    if to - from < 5 {
        return false;
    }
    let r = cs[from] == 'p' && cs[from + 1] == 'a' && cs[from + 2] == 't' && cs[from + 3] == 'h'
        && cs[from + 4] == '=';
    proof {
        let seg = cs@.subrange(from as int, to as int);
        assert(seg.subrange(0, 5) =~= seq![seg[0], seg[1], seg[2], seg[3], seg[4]]);
        assert("path="@ =~= seq!['p', 'a', 't', 'h', '=']);
    }
    r
}

/// The value of the first `path=` pair of a query string.
pub fn path_parameter(q: &str) -> (r: Option<String>)
    ensures
        opt_view(r) == path_param(q@),
{
    let cs = chars_of(q);
    let mut start: usize = 0;
    assert(cs@.skip(0) == cs@);
    loop
        invariant
            start <= cs@.len(),
            cs@ == q@,
            path_param(q@) == path_param(cs@.skip(start as int)),
        decreases cs@.len() - start,
    {
        let ghost rest = cs@.skip(start as int);
        let mut end = start;
        while end < cs.len() && cs[end] != '&'
            invariant
                start <= end <= cs@.len(),
                forall|k: int| start <= k < end ==> cs@[k] != '&',
            decreases cs@.len() - end,
        {
            end = end + 1;
        }
        proof {
            lemma_first_index_of(rest, '&');
            assert(rest.take(end - start) == cs@.subrange(start as int, end as int));
            if end < cs@.len() {
                assert(rest[end - start] == '&');
                assert forall|k: int| 0 <= k < end - start implies rest[k] != '&' by {
                    assert(rest[k] == cs@[start + k]);
                }
                lemma_first_index_unique(rest, '&', end - start);
                assert(rest.skip(end - start + 1) == cs@.skip(end + 1));
            } else {
                assert forall|k: int| 0 <= k < rest.len() implies rest[k] != '&' by {
                    assert(rest[k] == cs@[start + k]);
                }
                assert(first_index_of(rest, '&') is None);
                assert(rest == cs@.subrange(start as int, end as int));
            }
        }
        if has_path_key(&cs, start, end) {
            let v = string_from_range(&cs, start + 5, end);
            assert(v@ == cs@.subrange(start as int, end as int).skip(5));
            return Some(v);
        }
        if end == cs.len() {
            return None;
        }
        start = end + 1;
    }
}

proof fn lemma_first_index_unique(s: Seq<char>, c: char, j: int)
    requires
        0 <= j < s.len(),
        s[j] == c,
        forall|k: int| 0 <= k < j ==> s[k] != c,
    ensures
        first_index_of(s, c) == Some(j),
    decreases s.len(),
{
    if j > 0 {
        assert forall|k: int| 0 <= k < j - 1 implies s.drop_first()[k] != c by {
            assert(s.drop_first()[k] == s[k + 1]);
        }
        lemma_first_index_unique(s.drop_first(), c, j - 1);
    }
}

/// The path asked for by a navigation query.
pub fn navigate_target(query: &Option<String>) -> (r: String)
    ensures
        r@ == navigate_target_spec(opt_view(*query)),
{
    match query {
        Some(q) => match path_parameter(q.as_str()) {
            Some(v) => url_decode(v.as_str()),
            None => String::new(),
        },
        None => String::new(),
    }
}

/// What a navigation request needs next.
pub enum NavigatePlan {
    /// Send this reply.
    Reply(String),
    /// Find out whether `fs_path` is a directory or a file, then go on with
    /// `navigate_after_probe`.
    Probe { target: String, normalized: String, fs_path: String },
}

/// The path with `/` separators and no trailing slash.
fn normalize(target: &str) -> (r: String)
    ensures
        r@ == normalized_spec(target@),
{
    let slashed = replace_char(target, '\\', '/');
    trim_end_char(slashed.as_str(), '/')
}

/// The first step of a navigation request: `400` without a path, else the
/// path to look up (`X:\` for a drive `X:`, else the path with `\`
/// separators).
pub fn navigate_plan(query: &Option<String>) -> (r: NavigatePlan)
    ensures
        ({
            let t = navigate_target_spec(opt_view(*query));
            if t.len() == 0 {
                r matches NavigatePlan::Reply(s) && s@ == html_response(
                    400,
                    "Bad Request"@,
                    BAD_REQUEST_BODY@,
                )
            } else {
                r matches NavigatePlan::Probe { target, normalized, fs_path } && target@ == t
                    && normalized@ == normalized_spec(t) && fs_path@ == sidebar_dir_spec(
                    normalized_spec(t),
                )
            }
        }),
{
    let target = navigate_target(query);
    if target.as_str().is_empty() {
        return NavigatePlan::Reply(http_response(400, "Bad Request", BAD_REQUEST_BODY));
    }
    let normalized = normalize(target.as_str());
    let fs_path = sidebar_dir(normalized.as_str());
    NavigatePlan::Probe { target, normalized, fs_path }
}

/// What a navigation request needs after the path was looked up.
pub enum NavigateNext {
    /// Send this reply.
    Reply(String),
    /// Find out whether this parent directory is a directory, then finish
    /// with `navigate_after_parent`.
    CheckParent(String),
}

/// The not-found reply to a navigation request.
pub open spec fn navigate_not_found_spec(target: Seq<char>) -> Seq<char> {
    html_response(404, "Not Found"@, not_found_spec(PATH_MISSING@, target))
}

/// The not-found reply to a navigation request.
fn navigate_not_found(target: &str) -> (r: String)
    ensures
        r@ == navigate_not_found_spec(target@),
{
    let mut page = String::new();
    page.append(NOT_FOUND_OPEN);
    page.append(PATH_MISSING);
    let esc = html_escape(target);
    append_string(&mut page, &esc);
    page.append(BACK_PARAGRAPH);
    page.append(BACK_LINK);
    page.append(BACK_LINK_REST);
    http_response(404, "Not Found", page.as_str())
}

/// The step after a path that is neither a directory nor a file, given the
/// parent `std::path` finds for it: check a parent directory; a path with
/// the empty parent (a bare name) goes to the top listing; a path without a
/// parent is not found.
pub open spec fn missing_step(target: Seq<char>, parent: Option<String>, r: NavigateNext) -> bool {
    match parent {
        Some(p) => if p@.len() > 0 {
            r == NavigateNext::CheckParent(p)
        } else {
            r matches NavigateNext::Reply(s) && s@ == redirect_spec("/"@)
        },
        None => r matches NavigateNext::Reply(s) && s@ == navigate_not_found_spec(target),
    }
}

/// The step after a path that is neither a directory nor a file (see
/// `missing_step`).
pub fn navigate_missing(target: &str, parent: &Option<String>) -> (r: NavigateNext)
    ensures
        missing_step(target@, *parent, r),
{
    match parent {
        Some(p) => if p.as_str().is_empty() {
            NavigateNext::Reply(redirect_response("/"))
        } else {
            NavigateNext::CheckParent(p.clone())
        },
        None => NavigateNext::Reply(navigate_not_found(target)),
    }
}

/// A missing path falls back to its parent: the parent directory part of
/// `fs_path` is checked (where `\` separates names), or, where the path is a
/// single name, the top listing is shown.
pub open spec fn falls_back(fs_path: Seq<char>, r: NavigateNext) -> bool {
    ||| r matches NavigateNext::CheckParent(q) && q@ == backslash_parent(fs_path) && q@.len() > 0
    ||| r matches NavigateNext::Reply(s) && s@ == redirect_spec("/"@)
}

/// A missing path written with `\` separators (such as `X:\a\b`, see
/// `is_backslash_path`) falls back to its parent rather than being answered
/// not found: the step checks its parent directory `X:\a` (which is never
/// empty), or, where `\` is no separator and the path is a single name, goes
/// to the top listing.
pub proof fn lemma_missing_path_falls_back(target: Seq<char>, fs_path: Seq<char>, parent: Option<String>, r: NavigateNext)
    requires
        parent_fits(fs_path, parent),
        missing_step(target, parent, r),
        is_backslash_path(fs_path),
    ensures
        falls_back(fs_path, r),
{
    lemma_backslash_parent_not_empty(fs_path);
}

/// The step after looking up a path: a directory redirects to its page, a
/// file to its preview; otherwise the step goes by the parent `std::path`
/// finds for `fs_path` (see `missing_step`): a bare name goes to the top
/// listing, a relative path's parent is checked or it goes to the top
/// listing, the empty path and `/` are not found.
pub fn navigate_after_probe(
    target: &str,
    normalized: &str,
    fs_path: &str,
    is_dir: bool,
    is_file: bool,
) -> (r: NavigateNext)
    ensures
        is_dir ==> (r matches NavigateNext::Reply(s) && s@ == redirect_spec(
            "/list/"@ + url_encode_spec(normalized@) + "/"@,
        )),
        !is_dir && is_file ==> (r matches NavigateNext::Reply(s) && s@ == redirect_spec(
            "/"@ + url_encode_spec(normalized@),
        )),
        !is_dir && !is_file ==> exists|parent: Option<String>|
            parent_fits(fs_path@, parent) && #[trigger] missing_step(target@, parent, r),
        !is_dir && !is_file && is_plain_name(fs_path@) ==> (r matches NavigateNext::Reply(s)
            && s@ == redirect_spec("/"@)),
        !is_dir && !is_file && is_relative_path(fs_path@) ==> (r is CheckParent || (
        r matches NavigateNext::Reply(s) && s@ == redirect_spec("/"@))),
        !is_dir && !is_file && is_backslash_path(fs_path@) ==> falls_back(fs_path@, r),
        !is_dir && !is_file && (fs_path@.len() == 0 || is_root_path(fs_path@)) ==> (
        r matches NavigateNext::Reply(s) && s@ == navigate_not_found_spec(target@)),
{
    if is_dir {
        let mut loc = String::new();
        loc.append("/list/");
        let enc = url_encode_path(normalized);
        append_string(&mut loc, &enc);
        loc.append("/");
        NavigateNext::Reply(redirect_response(loc.as_str()))
    } else if is_file {
        let mut loc = String::new();
        loc.append("/");
        let enc = url_encode_path(normalized);
        append_string(&mut loc, &enc);
        NavigateNext::Reply(redirect_response(loc.as_str()))
    } else {
        let parent = parent_of(fs_path);
        let r = navigate_missing(target, &parent);
        proof {
            if is_backslash_path(fs_path@) {
                lemma_missing_path_falls_back(target@, fs_path@, parent, r);
            }
        }
        r
    }
}

/// The last step: redirect to the parent directory's page when it is a
/// directory, else reply not found.
pub fn navigate_after_parent(target: &str, parent: &str, parent_is_dir: bool) -> (r: String)
    ensures
        parent_is_dir ==> r@ == redirect_spec(
            "/list/"@ + url_encode_spec(replace_char_spec(parent@, '\\', '/')) + "/"@,
        ),
        !parent_is_dir ==> r@ == navigate_not_found_spec(target@),
{
    if parent_is_dir {
        let slashed = replace_char(parent, '\\', '/');
        let enc = url_encode_path(slashed.as_str());
        let mut loc = String::new();
        loc.append("/list/");
        append_string(&mut loc, &enc);
        loc.append("/");
        redirect_response(loc.as_str())
    } else {
        navigate_not_found(target)
    }
}

/// A redirect to a directory lands, once its target is decoded, on the
/// directory page of exactly the path asked for (with `/` separators and
/// no trailing slash).
pub proof fn lemma_directory_redirect_lands_on_listing(target: Seq<char>)
    ensures
        ({
            let n = normalized_spec(target);
            let path = url_decode_spec("/list/"@ + url_encode_spec(n) + "/"@);
            &&& path == "/list/"@ + n + "/"@
            &&& route_spec("GET"@, path) == Route::List
            &&& list_current_spec(path) == n
        }),
{
    reveal_strlit("/list/");
    reveal_strlit("/");
    reveal_strlit("GET");
    let n = normalized_spec(target);
    lemma_top_dir_link(n);
    lemma_url_decode_of_utf8("/list/"@ + url_encode_spec(n) + "/"@, "/list/"@ + n + "/"@);
    let path = "/list/"@ + n + "/"@;
    assert(path.subrange(0, 6) == "/list/"@);
    assert(path.skip(6) == n + "/"@);
    assert((n + "/"@).drop_last() == n);
    lemma_trim_end_idempotent(replace_char_spec(target, '\\', '/'), '/');
    assert(path != "/"@);
    assert(path != "/list/"@);
}

/// A redirect to a file leads, once its target is decoded, to the preview
/// of exactly the path asked for.
pub proof fn lemma_file_redirect_names_path(target: Seq<char>)
    ensures
        url_decode_spec("/"@ + url_encode_spec(normalized_spec(target))) == "/"@ + normalized_spec(
            target,
        ),
{
    let n = normalized_spec(target);
    lemma_top_file_link(n);
    lemma_url_decode_of_utf8("/"@ + url_encode_spec(n), "/"@ + n);
}

} // verus!
