//! The navigation sidebar: the drives at the top level, else a link to the
//! parent directory and the directory's sub-directories and viewable files,
//! directories first, each group ordered by lower-cased name.

use vstd::prelude::*;
use crate::html::{escape_spec, html_escape};
use crate::paths::{
    backslash_parent, drive_labels, get_all_drives, is_backslash_path,
    parent_fits, parent_of, views,
};
use crate::text::{
    append_string, chars_of, ends_with_char, push_char, replace_char, replace_char_spec, str_eq,
    trim_end_char, trim_end_spec,
};
use crate::url::{
    decode_chars, lemma_decode_encoded_then, lemma_decode_plain_then, lemma_encode_utf8_concat,
    lemma_url_decode_of_utf8, url_decode_spec, url_encode_path, url_encode_spec,
};
use vstd::utf8::encode_utf8;

verus! {

broadcast use vstd::seq_lib::group_to_multiset_ensures;

/// One entry of a directory as the sidebar reads it: its name and whether it
/// is a directory.
pub struct DirEntryInfo {
    pub name: String,
    pub is_dir: bool,
}

/// The name and kind of each entry.
pub open spec fn entry_views(v: Seq<DirEntryInfo>) -> Seq<(Seq<char>, bool)> {
    v.map_values(|e: DirEntryInfo| (e.name@, e.is_dir))
}

/// What `str::to_lowercase` makes of a text.
pub uninterp spec fn lowercase(s: Seq<char>) -> Seq<char>;

/// A character below 128.
pub open spec fn is_ascii_char(c: char) -> bool {
    (c as u32) < 128
}

/// The lower-case form of an ASCII character: `A` to `Z` become `a` to `z`,
/// the others stay.
pub open spec fn ascii_lower(c: char) -> char {
    if 'A' <= c <= 'Z' {
        ((c as u32) + 32) as char
    } else {
        c
    }
}

/// `str::to_lowercase`.
/// Trusted: the result is `lowercase(s)`; on ASCII text it lower-cases `A`
/// to `Z` and keeps every other character (Unicode's lower-case mapping of
/// the ASCII range). The mapping of other characters is not stated.
#[verifier::external_body]
pub(crate) fn to_lowercase(s: &str) -> (r: String)
    ensures
        r@ == lowercase(s@),
        (forall|i: int| 0 <= i < s@.len() ==> is_ascii_char(#[trigger] s@[i])) ==> r@ == s@.map_values(
            |c: char| ascii_lower(c),
        ),
{
    s.to_lowercase()
}

/// The text after the last `c` in `s`, or all of `s` without one
/// (`s.rsplit(c).next()`).
pub open spec fn last_segment(s: Seq<char>, c: char) -> Seq<char>
    decreases s.len(),
{
    if s.len() == 0 {
        s
    } else if s.last() == c {
        seq![]
    } else {
        last_segment(s.drop_last(), c).push(s.last())
    }
}

/// The file extensions the sidebar lists.
pub open spec fn is_listed_extension(e: Seq<char>) -> bool {
    e == "md"@ || e == "json"@ || e == "py"@ || e == "html"@ || e == "log"@
}

/// Whether the sidebar shows an entry: not hidden (no leading `.`), and
/// either a directory or a file with a listed extension.
pub open spec fn is_listed(e: (Seq<char>, bool)) -> bool {
    &&& !(e.0.len() > 0 && e.0[0] == '.')
    &&& (e.1 || is_listed_extension(last_segment(e.0, '.')))
}

/// The entries the sidebar shows, in their original order.
pub open spec fn listed(es: Seq<(Seq<char>, bool)>) -> Seq<(Seq<char>, bool)>
    decreases es.len(),
{
    if es.len() == 0 {
        seq![]
    } else {
        let prev = listed(es.drop_last());
        if is_listed(es.last()) {
            prev.push(es.last())
        } else {
            prev
        }
    }
}

/// Lexicographic order of texts, character by character (which is the byte
/// order of their UTF-8 forms).
pub open spec fn lex_less(a: Seq<char>, b: Seq<char>) -> bool
    decreases a.len(),
{
    if a.len() == 0 {
        b.len() > 0
    } else if b.len() == 0 {
        false
    } else if a[0] != b[0] {
        a[0] < b[0]
    } else {
        lex_less(a.drop_first(), b.drop_first())
    }
}

/// Whether entry `a` goes strictly before entry `b`: directories before
/// files, then by lower-cased name.
pub open spec fn entry_before(a: (Seq<char>, bool), b: (Seq<char>, bool)) -> bool {
    (a.1 && !b.1) || (a.1 == b.1 && lex_less(lowercase(a.0), lowercase(b.0)))
}

/// Where `x` goes in `s`: before the first entry it goes before.
pub open spec fn insert_pos(s: Seq<(Seq<char>, bool)>, x: (Seq<char>, bool)) -> int
    decreases s.len(),
{
    if s.len() == 0 {
        0
    } else if entry_before(x, s[0]) {
        0
    } else {
        1 + insert_pos(s.drop_first(), x)
    }
}

/// The entries in sidebar order; entries that compare equal keep their
/// order (a stable sort).
pub open spec fn sort_entries(es: Seq<(Seq<char>, bool)>) -> Seq<(Seq<char>, bool)>
    decreases es.len(),
{
    if es.len() == 0 {
        seq![]
    } else {
        let s = sort_entries(es.drop_last());
        s.insert(insert_pos(s, es.last()), es.last())
    }
}

/// Whether no entry of `s` goes before an earlier one.
pub open spec fn sorted_entries(s: Seq<(Seq<char>, bool)>) -> bool {
    forall|i: int, j: int| 0 <= i < j < s.len() ==> !entry_before(#[trigger] s[j], #[trigger] s[i])
}

pub const ENTRY_OPEN: &'static str = "<div class='entry'><a href='";

pub const ENTRY_MIDDLE: &'static str = "'>";

pub const ENTRY_CLOSE: &'static str = "</a></div>";

pub const DIR_ICON: &'static str = "📁";

pub const FILE_ICON: &'static str = "📄";

pub const DRIVE_OPEN: &'static str = "<div class='entry'><a href='/list/";

pub const DRIVE_MIDDLE: &'static str = ":/'><span class='drive-icon'>&#x1F4BF;</span> 本地磁盘 (";

pub const DRIVE_CLOSE: &'static str = ")</a></div>";

pub const UP_OPEN: &'static str = "<div class='entry up'><a href='";

pub const UP_CLOSE: &'static str = "'>⬆ ..</a></div>";

pub const NAV_OPEN: &'static str = "<nav class='sidebar'>";

pub const NAV_CLOSE: &'static str = "</nav>";

/// The link of an entry of the directory `current`.
pub open spec fn entry_link(current: Seq<char>, name: Seq<char>, is_dir: bool) -> Seq<char> {
    if current.len() == 0 {
        if is_dir {
            "/list/"@ + url_encode_spec(name) + "/"@
        } else {
            "/"@ + url_encode_spec(name)
        }
    } else {
        let base = url_encode_spec(trim_end_spec(current, '/'));
        if is_dir {
            "/list/"@ + base + "/"@ + url_encode_spec(name) + "/"@
        } else {
            "/"@ + base + "/"@ + url_encode_spec(name)
        }
    }
}

/// The line of one entry of the directory `current`.
pub open spec fn entry_html(current: Seq<char>, e: (Seq<char>, bool)) -> Seq<char> {
    ENTRY_OPEN@ + entry_link(current, e.0, e.1) + ENTRY_MIDDLE@ + (if e.1 {
        DIR_ICON@
    } else {
        FILE_ICON@
    }) + " "@ + escape_spec(e.0) + ENTRY_CLOSE@
}

/// The lines of several entries.
pub open spec fn entries_html(current: Seq<char>, es: Seq<(Seq<char>, bool)>) -> Seq<char>
    decreases es.len(),
{
    if es.len() == 0 {
        seq![]
    } else {
        entries_html(current, es.drop_last()) + entry_html(current, es.last())
    }
}

/// The line of one drive.
pub open spec fn drive_html(d: Seq<char>) -> Seq<char> {
    DRIVE_OPEN@ + trim_end_spec(d, ':') + DRIVE_MIDDLE@ + d + DRIVE_CLOSE@
}

/// The lines of several drives.
pub open spec fn drives_html(ds: Seq<Seq<char>>) -> Seq<char>
    decreases ds.len(),
{
    if ds.len() == 0 {
        seq![]
    } else {
        drives_html(ds.drop_last()) + drive_html(ds.last())
    }
}

/// The entries read from a directory, if it could be read.
pub open spec fn listing_view(l: Option<Vec<DirEntryInfo>>) -> Option<Seq<(Seq<char>, bool)>> {
    match l {
        Some(es) => Some(entry_views(es@)),
        None => None,
    }
}

/// The text of an optional string.
pub open spec fn opt_view(o: Option<String>) -> Option<Seq<char>> {
    match o {
        Some(s) => Some(s@),
        None => None,
    }
}

/// The parent link target: the parent with `/` separators, or nothing.
pub open spec fn parent_link(parent: Option<Seq<char>>) -> Seq<char> {
    match parent {
        Some(p) => replace_char_spec(p, '\\', '/'),
        None => seq![],
    }
}

/// The link to the parent directory's listing.
pub open spec fn up_link(parent: Option<Seq<char>>) -> Seq<char> {
    "/list/"@ + url_encode_spec(parent_link(parent)) + "/"@
}

/// Whether `current` names the top level, where the drives are shown.
pub open spec fn is_top_level(current: Seq<char>) -> bool {
    current.len() == 0 || current == "/"@
}

/// The sidebar of directory `current`, given the parent that `std::path`
/// finds for it (with `\` separators), the drives present, and the entries
/// read from the directory (nothing when it could not be read).
pub open spec fn sidebar_spec(
    current: Seq<char>,
    parent: Option<Seq<char>>,
    drives: Seq<Seq<char>>,
    listing: Option<Seq<(Seq<char>, bool)>>,
) -> Seq<char> {
    let body = if is_top_level(current) {
        drives_html(drives)
    } else {
        let up = if current.last() != ':' && parent_link(parent).len() > 0 {
            UP_OPEN@ + up_link(parent) + UP_CLOSE@
        } else {
            seq![]
        };
        let list = match listing {
            Some(es) => entries_html(current, sort_entries(listed(es))),
            None => seq![],
        };
        up + list
    };
    NAV_OPEN@ + body + NAV_CLOSE@
}

/// The directory the sidebar of `current` lists.
pub open spec fn sidebar_dir_spec(current: Seq<char>) -> Seq<char> {
    if current.len() > 0 && current.last() == ':' {
        seq![current[0], ':', '\\']
    } else {
        replace_char_spec(current, '/', '\\')
    }
}

/// The directory whose entries the sidebar of `current` lists: `X:\` for a
/// drive `X:` (named by its first character), else `current` with `\`
/// separators.
pub fn sidebar_dir(current: &str) -> (r: String)
    ensures
        r@ == sidebar_dir_spec(current@),
{
    let cs = chars_of(current);
    if cs.len() > 0 && cs[cs.len() - 1] == ':' {
        let mut out = String::new();
        push_char(&mut out, cs[0]);
        push_char(&mut out, ':');
        push_char(&mut out, '\\');
        out
    } else {
        replace_char(current, '/', '\\')
    }
}

/// The sidebar's view of a directory entry with its sort key.
struct KeyedEntry {
    name: String,
    is_dir: bool,
    key: Vec<char>,
}

spec fn keyed_views(v: Seq<KeyedEntry>) -> Seq<(Seq<char>, bool)> {
    v.map_values(|e: KeyedEntry| (e.name@, e.is_dir))
}

spec fn keys_hold(v: Seq<KeyedEntry>) -> bool {
    forall|k: int| 0 <= k < v.len() ==> (#[trigger] v[k]).key@ == lowercase(v[k].name@)
}

/// `lex_less` on character vectors.
fn lex_less_chars(a: &Vec<char>, b: &Vec<char>) -> (r: bool)
    ensures
        r == lex_less(a@, b@),
{
    let mut i: usize = 0;
    assert(a@.skip(0) == a@ && b@.skip(0) == b@);
    while i < a.len() && i < b.len() && a[i] == b[i]
        invariant
            i <= a@.len(),
            i <= b@.len(),
            lex_less(a@, b@) == lex_less(a@.skip(i as int), b@.skip(i as int)),
        decreases a@.len() - i,
    {
        assert(a@.skip(i as int).drop_first() == a@.skip(i + 1));
        assert(b@.skip(i as int).drop_first() == b@.skip(i + 1));
        i = i + 1;
    }
    if i == a.len() {
        i < b.len()
    } else if i == b.len() {
        false
    } else {
        a[i] < b[i]
    }
}

/// The extension the sidebar reads from a file name.
fn listed_extension(name: &Vec<char>) -> (r: Vec<char>)
    ensures
        r@ == last_segment(name@, '.'),
{
    let mut j = name.len();
    while j > 0 && name[j - 1] != '.'
        invariant
            j <= name@.len(),
            forall|k: int| j <= k < name@.len() ==> name@[k] != '.',
        decreases j,
    {
        j = j - 1;
    }
    proof {
        lemma_last_segment(name@, j as int);
    }
    let mut out: Vec<char> = Vec::new();
    let mut k = j;
    while k < name.len()
        invariant
            j <= k <= name@.len(),
            out@ == name@.subrange(j as int, k as int),
        decreases name@.len() - k,
    {
        out.push(name[k]);
        k = k + 1;
    }
    out
}

proof fn lemma_last_segment(s: Seq<char>, j: int)
    requires
        0 <= j <= s.len(),
        forall|k: int| j <= k < s.len() ==> s[k] != '.',
        j == 0 || s[j - 1] == '.',
    ensures
        last_segment(s, '.') == s.subrange(j, s.len() as int),
    decreases s.len() - j,
{
    if j < s.len() {
        lemma_last_segment(s.drop_last(), j);
        assert(s.drop_last().subrange(j, s.len() - 1).push(s.last()) == s.subrange(
            j,
            s.len() as int,
        ));
    } else {
        if s.len() > 0 {
            assert(s.last() == '.');
        }
    }
}

/// Whether the sidebar shows the entry.
fn entry_listed(e: &DirEntryInfo) -> (r: bool)
    ensures
        r == is_listed((e.name@, e.is_dir)),
{
    let cs = chars_of(e.name.as_str());
    if cs.len() > 0 && cs[0] == '.' {
        return false;
    }
    if e.is_dir {
        return true;
    }
    let ext = listed_extension(&cs);
    let ext_s = crate::text::string_from_chars(&ext);
    let x = ext_s.as_str();
    str_eq(x, "md") || str_eq(x, "json") || str_eq(x, "py") || str_eq(x, "html") || str_eq(
        x,
        "log",
    )
}

/// The entries the sidebar shows, in their original order.
fn listed_entries(es: &Vec<DirEntryInfo>) -> (r: Vec<KeyedEntry>)
    ensures
        keyed_views(r@) == listed(entry_views(es@)),
        keys_hold(r@),
{
    let mut out: Vec<KeyedEntry> = Vec::new();
    let mut i: usize = 0;
    while i < es.len()
        invariant
            i <= es@.len(),
            keyed_views(out@) == listed(entry_views(es@).take(i as int)),
            keys_hold(out@),
        decreases es@.len() - i,
    {
        let e = &es[i];
        assert(entry_views(es@).take(i + 1 as int).drop_last() == entry_views(es@).take(
            i as int,
        ));
        assert(entry_views(es@).take(i + 1 as int).last() == (e.name@, e.is_dir));
        if entry_listed(e) {
            let lower = to_lowercase(e.name.as_str());
            let key = chars_of(lower.as_str());
            let item = KeyedEntry { name: e.name.clone(), is_dir: e.is_dir, key };
            let ghost before = out@;
            out.push(item);
            assert(keyed_views(out@) == keyed_views(before).push((e.name@, e.is_dir)));
        }
        i = i + 1;
    }
    assert(entry_views(es@).take(es@.len() as int) == entry_views(es@));
    out
}

proof fn lemma_lex_asym(a: Seq<char>, b: Seq<char>)
    ensures
        lex_less(a, b) ==> !lex_less(b, a),
    decreases a.len(),
{
    if a.len() > 0 && b.len() > 0 && a[0] == b[0] {
        lemma_lex_asym(a.drop_first(), b.drop_first());
    }
}

proof fn lemma_lex_trans(a: Seq<char>, b: Seq<char>, c: Seq<char>)
    ensures
        lex_less(a, b) && lex_less(b, c) ==> lex_less(a, c),
    decreases a.len(),
{
    if a.len() > 0 && b.len() > 0 && c.len() > 0 {
        lemma_lex_trans(a.drop_first(), b.drop_first(), c.drop_first());
    }
}

proof fn lemma_before_asym(a: (Seq<char>, bool), b: (Seq<char>, bool))
    ensures
        entry_before(a, b) ==> !entry_before(b, a),
{
    lemma_lex_asym(lowercase(a.0), lowercase(b.0));
}

proof fn lemma_before_trans(a: (Seq<char>, bool), b: (Seq<char>, bool), c: (Seq<char>, bool))
    ensures
        entry_before(a, b) && entry_before(b, c) ==> entry_before(a, c),
{
    lemma_lex_trans(lowercase(a.0), lowercase(b.0), lowercase(c.0));
}

proof fn lemma_insert_pos_props(s: Seq<(Seq<char>, bool)>, x: (Seq<char>, bool))
    ensures
        0 <= insert_pos(s, x) <= s.len(),
        forall|k: int| 0 <= k < insert_pos(s, x) ==> !entry_before(x, #[trigger] s[k]),
        insert_pos(s, x) < s.len() ==> entry_before(x, s[insert_pos(s, x)]),
    decreases s.len(),
{
    if s.len() > 0 && !entry_before(x, s[0]) {
        lemma_insert_pos_props(s.drop_first(), x);
        assert forall|k: int| 0 <= k < insert_pos(s, x) implies !entry_before(x, #[trigger] s[k]) by {
            if k > 0 {
                assert(s[k] == s.drop_first()[k - 1]);
            }
        }
    }
}

proof fn lemma_insert_pos_unique(s: Seq<(Seq<char>, bool)>, x: (Seq<char>, bool), j: int)
    requires
        0 <= j <= s.len(),
        forall|k: int| 0 <= k < j ==> !entry_before(x, #[trigger] s[k]),
        j < s.len() ==> entry_before(x, s[j]),
    ensures
        insert_pos(s, x) == j,
    decreases s.len(),
{
    if s.len() > 0 && j > 0 {
        assert(!entry_before(x, s[0]));
        assert forall|k: int| 0 <= k < j - 1 implies !entry_before(
            x,
            #[trigger] s.drop_first()[k],
        ) by {
            assert(s.drop_first()[k] == s[k + 1]);
        }
        lemma_insert_pos_unique(s.drop_first(), x, j - 1);
    }
}

/// Puts the listed entries in sidebar order.
fn sort_listed(items: Vec<KeyedEntry>) -> (r: Vec<KeyedEntry>)
    requires
        keys_hold(items@),
    ensures
        keyed_views(r@) == sort_entries(keyed_views(items@)),
        keys_hold(r@),
{
    let ghost src = keyed_views(items@);
    let mut out: Vec<KeyedEntry> = Vec::new();
    let mut rest = items;
    let n = rest.len();
    let ghost orig = items@;
    // Reverse the items, so that popping hands them out in their original order.
    let mut pending: Vec<KeyedEntry> = Vec::new();
    while rest.len() > 0
        invariant
            pending@ + rest@.reverse() == orig.reverse(),
            keys_hold(rest@),
            keys_hold(pending@),
        decreases rest@.len(),
    {
        let ghost r0 = rest@;
        let ghost p0 = pending@;
        let x = rest.pop().unwrap();
        pending.push(x);
        proof {
            assert(r0 == rest@.push(x));
            assert(r0.reverse() == seq![x] + rest@.reverse());
            assert(pending@ + rest@.reverse() == p0 + r0.reverse());
            assert forall|k: int| 0 <= k < pending@.len() implies (#[trigger] pending@[k]).key@
                == lowercase(pending@[k].name@) by {
                if k < p0.len() {
                    assert(pending@[k] == p0[k]);
                }
            }
        }
    }
    assert(pending@ == orig.reverse());
    assert(pending@.len() == n);
    let mut i: usize = 0;
    while i < n
        invariant
            i <= n,
            forall|k: int| 0 <= k < pending@.len() ==> #[trigger] pending@[k] == orig[n - 1 - k],
            orig.len() == n,
            src == keyed_views(orig),
            keys_hold(orig),
            keyed_views(out@) == sort_entries(src.take(i as int)),
            keys_hold(out@),
            pending@.len() == n - i,
        decreases n - i,
    {
        let x = pending.pop().unwrap();
        proof {
            assert(x == orig[i as int]);
        }
        let ghost xv = (x.name@, x.is_dir);
        let ghost s = keyed_views(out@);
        let mut j: usize = 0;
        while j < out.len() && !((x.is_dir && !out[j].is_dir) || (x.is_dir == out[j].is_dir
            && lex_less_chars(&x.key, &out[j].key)))
            invariant
                j <= out@.len(),
                s == keyed_views(out@),
                keys_hold(out@),
                x.key@ == lowercase(x.name@),
                xv == (x.name@, x.is_dir),
                forall|k: int| 0 <= k < j ==> !entry_before(xv, #[trigger] s[k]),
            decreases out@.len() - j,
        {
            assert(s[j as int] == (out@[j as int].name@, out@[j as int].is_dir));
            j = j + 1;
        }
        proof {
            if j < out@.len() {
                assert(s[j as int] == (out@[j as int].name@, out@[j as int].is_dir));
            }
            lemma_insert_pos_unique(s, xv, j as int);
            assert(src.take(i + 1 as int).drop_last() == src.take(i as int));
            assert(src.take(i + 1 as int).last() == xv);
        }
        let ghost before = out@;
        out.insert(j, x);
        proof {
            assert(keyed_views(out@) == s.insert(j as int, xv));
            assert forall|k: int| 0 <= k < out@.len() implies (#[trigger] out@[k]).key@
                == lowercase(out@[k].name@) by {
                if k < j {
                    assert(out@[k] == before[k]);
                } else if k > j {
                    assert(out@[k] == before[k - 1]);
                }
            }
        }
        i = i + 1;
    }
    assert(src.take(n as int) == src);
    out
}

/// The link of an entry of the directory `current`.
fn entry_link_text(current: &str, name: &str, is_dir: bool) -> (r: String)
    ensures
        r@ == entry_link(current@, name@, is_dir),
{
    let enc_name = url_encode_path(name);
    let mut out = String::new();
    if current.is_empty() {
        if is_dir {
            out.append("/list/");
            append_string(&mut out, &enc_name);
            out.append("/");
        } else {
            out.append("/");
            append_string(&mut out, &enc_name);
        }
    } else {
        let base = trim_end_char(current, '/');
        let enc_base = url_encode_path(base.as_str());
        if is_dir {
            out.append("/list/");
            append_string(&mut out, &enc_base);
            out.append("/");
            append_string(&mut out, &enc_name);
            out.append("/");
        } else {
            out.append("/");
            append_string(&mut out, &enc_base);
            out.append("/");
            append_string(&mut out, &enc_name);
        }
    }
    out
}

/// The line of one entry of the directory `current`.
fn entry_line(current: &str, name: &str, is_dir: bool) -> (r: String)
    ensures
        r@ == entry_html(current@, (name@, is_dir)),
{
    let mut out = String::new();
    out.append(ENTRY_OPEN);
    let link = entry_link_text(current, name, is_dir);
    append_string(&mut out, &link);
    out.append(ENTRY_MIDDLE);
    if is_dir {
        out.append(DIR_ICON);
    } else {
        out.append(FILE_ICON);
    }
    out.append(" ");
    let esc = html_escape(name);
    append_string(&mut out, &esc);
    out.append(ENTRY_CLOSE);
    out
}

/// The lines of the listed entries of `current`, in sidebar order.
fn push_entries(out: &mut String, current: &str, entries: &Vec<KeyedEntry>)
    ensures
        final(out)@ == old(out)@ + entries_html(current@, keyed_views(entries@)),
{
    let mut i: usize = 0;
    while i < entries.len()
        invariant
            i <= entries@.len(),
            out@ == old(out)@ + entries_html(current@, keyed_views(entries@).take(i as int)),
        decreases entries@.len() - i,
    {
        let e = &entries[i];
        let line = entry_line(current, e.name.as_str(), e.is_dir);
        append_string(out, &line);
        proof {
            let ev = (e.name@, e.is_dir);
            assert(keyed_views(entries@).take(i + 1 as int).drop_last() == keyed_views(
                entries@,
            ).take(i as int));
            assert(keyed_views(entries@).take(i + 1 as int).last() == ev);
        }
        i = i + 1;
    }
    assert(keyed_views(entries@).take(entries@.len() as int) == keyed_views(entries@));
}

/// The sidebar of directory `current`, from the parent `std::path` gives for
/// it, the drives present and the entries read from it.
pub fn sidebar_html(
    current: &str,
    parent: &Option<String>,
    drives: &Vec<String>,
    listing: &Option<Vec<DirEntryInfo>>,
) -> (r: String)
    ensures
        r@ == sidebar_spec(
            current@,
            opt_view(*parent),
            views(drives@),
            listing_view(*listing),
        ),
{
    let mut out = String::new();
    out.append(NAV_OPEN);
    let ghost start = out@;
    if current.is_empty() || str_eq(current, "/") {
        let mut i: usize = 0;
        while i < drives.len()
            invariant
                i <= drives@.len(),
                out@ == start + drives_html(views(drives@).take(i as int)),
            decreases drives@.len() - i,
        {
            let d = &drives[i];
            out.append(DRIVE_OPEN);
            let trimmed = trim_end_char(d.as_str(), ':');
            append_string(&mut out, &trimmed);
            out.append(DRIVE_MIDDLE);
            out.append(d.as_str());
            out.append(DRIVE_CLOSE);
            proof {
                assert(views(drives@).take(i + 1 as int).drop_last() == views(drives@).take(
                    i as int,
                ));
                assert(views(drives@).take(i + 1 as int).last() == d@);
            }
            i = i + 1;
        }
        assert(views(drives@).take(drives@.len() as int) == views(drives@));
    } else {
        if !ends_with_char(current, ':') {
            let link = match parent {
                Some(p) => replace_char(p.as_str(), '\\', '/'),
                None => String::new(),
            };
            if !link.as_str().is_empty() {
                out.append(UP_OPEN);
                out.append("/list/");
                let encoded = url_encode_path(link.as_str());
                append_string(&mut out, &encoded);
                out.append("/");
                out.append(UP_CLOSE);
            }
            assert(link@ == parent_link(opt_view(*parent)));
        }
        let ghost mid = out@;
        assert(mid == start + (if current@.last() != ':' && parent_link(opt_view(*parent)).len() > 0 {
            UP_OPEN@ + up_link(opt_view(*parent)) + UP_CLOSE@
        } else {
            seq![]
        }));
        match listing {
            Some(es) => {
                let shown = listed_entries(es);
                let ordered = sort_listed(shown);
                push_entries(&mut out, current, &ordered);
            },
            None => {},
        }
        assert(out@ == mid + match listing {
            Some(es) => entries_html(current@, sort_entries(listed(entry_views(es@)))),
            None => seq![],
        });
    }
    out.append(NAV_CLOSE);
    out
}

/// The sidebar of a directory `current` below the top level whose path,
/// with `\` separators, is `\`-separated (see `is_backslash_path`): its
/// link up leads to the directory part of that path (`X:/a` for `X:/a/b`,
/// `X:/` for `X:/a`), or, where `\` is no separator and the path is a
/// single name with an empty parent, there is none.
pub open spec fn up_to_parent_or_none(
    current: Seq<char>,
    listing: Option<Seq<(Seq<char>, bool)>>,
    r: Seq<char>,
) -> bool {
    let fs = replace_char_spec(current, '/', '\\');
    ||| r == sidebar_spec(current, None, Seq::empty(), listing)
    ||| r == sidebar_spec(current, Some(backslash_parent(fs)), Seq::empty(), listing)
}

/// Whatever parent `std::path` gives a `\`-separated directory below the top
/// level, and whatever drives are present, the sidebar's link up leads to
/// the directory part of the path, or there is none (see
/// `up_to_parent_or_none`).
pub proof fn lemma_up_link_of_backslash_dir(
    current: Seq<char>,
    parent: Option<String>,
    flags: Seq<bool>,
    listing: Option<Seq<(Seq<char>, bool)>>,
)
    requires
        !is_top_level(current),
        current.last() != ':',
        is_backslash_path(replace_char_spec(current, '/', '\\')),
        parent_fits(replace_char_spec(current, '/', '\\'), parent),
    ensures
        up_to_parent_or_none(
            current,
            listing,
            sidebar_spec(current, opt_view(parent), drive_labels(flags), listing),
        ),
{
    let q = parent->0@;
    if q.len() == 0 {
        assert(parent_link(opt_view(parent)) == parent_link(None));
    }
}

/// The sidebar of directory `current`, given the entries read from the
/// directory `sidebar_dir(current)` (nothing when it could not be read):
/// `sidebar_spec` of the parent that `std::path` finds for `current` (with
/// `\` separators; see `parent_fits`) and of the drives present on the
/// machine.
pub fn render_sidebar(current: &str, listing: &Option<Vec<DirEntryInfo>>) -> (r: String)
    ensures
        exists|parent: Option<String>, flags: Seq<bool>|
            {
                &&& flags.len() == 26
                &&& !is_top_level(current@) && current@.last() != ':' ==> parent_fits(
                    replace_char_spec(current@, '/', '\\'),
                    parent,
                )
                &&& r@ == #[trigger] sidebar_spec(
                    current@,
                    opt_view(parent),
                    drive_labels(flags),
                    listing_view(*listing),
                )
            },
        !is_top_level(current@) && current@.last() != ':' && is_backslash_path(
            replace_char_spec(current@, '/', '\\'),
        ) ==> up_to_parent_or_none(current@, listing_view(*listing), r@),
{
    let top = current.is_empty() || str_eq(current, "/");
    let drives = if top {
        get_all_drives()
    } else {
        Vec::new()
    };
    let parent = if !top && !ends_with_char(current, ':') {
        let fs_form = replace_char(current, '/', '\\');
        parent_of(fs_form.as_str())
    } else {
        None
    };
    let r = sidebar_html(current, &parent, &drives, listing);
    proof {
        let flags = if top {
            choose|flags: Seq<bool>| flags.len() == 26 && views(drives@) == drive_labels(flags)
        } else {
            Seq::new(26, |i: int| false)
        };
        assert(r@ == sidebar_spec(
            current@,
            opt_view(parent),
            drive_labels(flags),
            listing_view(*listing),
        ));
        if !top && current@.last() != ':' && is_backslash_path(
            replace_char_spec(current@, '/', '\\'),
        ) {
            lemma_up_link_of_backslash_dir(current@, parent, flags, listing_view(*listing));
        }
    }
    r
}

/// The listed entries really are what the sidebar lists: neither hidden
/// nor of an unlisted extension.
pub proof fn lemma_listed_entries_shown(es: Seq<(Seq<char>, bool)>)
    ensures
        forall|i: int| 0 <= i < listed(es).len() ==> is_listed(#[trigger] listed(es)[i]),
        forall|e: (Seq<char>, bool)| #[trigger] es.contains(e) && is_listed(e) ==> listed(es).contains(e),
    decreases es.len(),
{
    if es.len() > 0 {
        lemma_listed_entries_shown(es.drop_last());
        let prev = listed(es.drop_last());
        assert forall|e: (Seq<char>, bool)| #[trigger] es.contains(e) && is_listed(e) implies listed(es).contains(e) by {
            let k = choose|k: int| 0 <= k < es.len() && es[k] == e;
            if k < es.len() - 1 {
                assert(es.drop_last()[k] == e);
                assert(es.drop_last().contains(e));
                let m = choose|m: int| 0 <= m < prev.len() && prev[m] == e;
                if is_listed(es.last()) {
                    assert(prev.push(es.last())[m] == e);
                }
            } else {
                assert(listed(es).last() == e);
            }
        }
    }
}

/// The sidebar's order is a sorting: the same entries, and none before an
/// earlier one (so directories come first, each group by lower-cased name).
pub proof fn lemma_sort_entries(es: Seq<(Seq<char>, bool)>)
    ensures
        sort_entries(es).to_multiset() == es.to_multiset(),
        sorted_entries(sort_entries(es)),
    decreases es.len(),
{
    if es.len() > 0 {
        lemma_sort_entries(es.drop_last());
        let s = sort_entries(es.drop_last());
        let x = es.last();
        let p = insert_pos(s, x);
        lemma_insert_pos_props(s, x);
        assert(es.drop_last().push(x) == es);
        let r = s.insert(p, x);
        assert forall|i: int, j: int| 0 <= i < j < r.len() implies !entry_before(
            #[trigger] r[j],
            #[trigger] r[i],
        ) by {
            if j < p {
                assert(r[i] == s[i] && r[j] == s[j]);
            } else if j == p {
                assert(r[i] == s[i] && r[j] == x);
            } else if i > p {
                assert(r[i] == s[i - 1] && r[j] == s[j - 1]);
            } else if i == p {
                assert(r[i] == x && r[j] == s[j - 1]);
                assert(entry_before(x, s[p]));
                if entry_before(s[j - 1], x) {
                    lemma_before_trans(s[j - 1], x, s[p]);
                    if j - 1 > p {
                        assert(!entry_before(s[j - 1], s[p]));
                    } else {
                        lemma_before_asym(x, s[p]);
                    }
                }
            } else {
                assert(r[i] == s[i] && r[j] == s[j - 1]);
            }
        }
    }
}

/// Directories come before files in the sidebar.
pub proof fn lemma_directories_first(es: Seq<(Seq<char>, bool)>)
    ensures
        forall|i: int, j: int|
            0 <= i < j < sort_entries(es).len() && (#[trigger] sort_entries(es)[j]).1 ==> (
            #[trigger] sort_entries(es)[i]).1,
{
    lemma_sort_entries(es);
    let s = sort_entries(es);
    assert forall|i: int, j: int| 0 <= i < j < s.len() && (#[trigger] s[j]).1 implies (
    #[trigger] s[i]).1 by {
        assert(!entry_before(s[j], s[i]));
    }
}

/// Where an entry link leads once the request path is decoded.
pub open spec fn entry_target(current: Seq<char>, name: Seq<char>, is_dir: bool) -> Seq<char> {
    if current.len() == 0 {
        if is_dir {
            "/list/"@ + name + "/"@
        } else {
            "/"@ + name
        }
    } else {
        let base = trim_end_spec(current, '/');
        if is_dir {
            "/list/"@ + base + "/"@ + name + "/"@
        } else {
            "/"@ + base + "/"@ + name
        }
    }
}

proof fn lemma_plain_literals()
    ensures
        forall|i: int| 0 <= i < "/list/"@.len() ==> "/list/"@[i] != '%',
        forall|i: int| 0 <= i < "/"@.len() ==> "/"@[i] != '%',
{
    reveal_strlit("/list/");
    reveal_strlit("/");
}

pub(crate) proof fn lemma_top_dir_link(name: Seq<char>)
    ensures
        decode_chars("/list/"@ + url_encode_spec(name) + "/"@) == encode_utf8(
            "/list/"@ + name + "/"@,
        ),
{
    lemma_plain_literals();
    let l = "/list/"@;
    let sl = "/"@;
    let en = url_encode_spec(name);
    let empty = Seq::<char>::empty();
    lemma_decode_plain_then(sl, empty);
    lemma_decode_encoded_then(encode_utf8(name), sl + empty);
    lemma_decode_plain_then(l, en + (sl + empty));
    assert(l + en + sl == l + (en + (sl + empty)));
    lemma_encode_utf8_concat(l, name);
    lemma_encode_utf8_concat(l + name, sl);
}

pub(crate) proof fn lemma_top_file_link(name: Seq<char>)
    ensures
        decode_chars("/"@ + url_encode_spec(name)) == encode_utf8("/"@ + name),
{
    lemma_plain_literals();
    let sl = "/"@;
    let en = url_encode_spec(name);
    let empty = Seq::<char>::empty();
    lemma_decode_encoded_then(encode_utf8(name), empty);
    lemma_decode_plain_then(sl, en + empty);
    assert(sl + en == sl + (en + empty));
    lemma_encode_utf8_concat(sl, name);
}

proof fn lemma_nested_dir_link(base: Seq<char>, name: Seq<char>)
    ensures
        decode_chars("/list/"@ + url_encode_spec(base) + "/"@ + url_encode_spec(name) + "/"@)
            == encode_utf8("/list/"@ + base + "/"@ + name + "/"@),
{
    lemma_plain_literals();
    let l = "/list/"@;
    let sl = "/"@;
    let en = url_encode_spec(name);
    let eb = url_encode_spec(base);
    let empty = Seq::<char>::empty();
    lemma_decode_plain_then(sl, empty);
    lemma_decode_encoded_then(encode_utf8(name), sl + empty);
    lemma_decode_plain_then(sl, en + (sl + empty));
    lemma_decode_encoded_then(encode_utf8(base), sl + (en + (sl + empty)));
    lemma_decode_plain_then(l, eb + (sl + (en + (sl + empty))));
    assert(l + eb + sl + en + sl == l + (eb + (sl + (en + (sl + empty)))));
    lemma_encode_utf8_concat(l, base);
    lemma_encode_utf8_concat(l + base, sl);
    lemma_encode_utf8_concat(l + base + sl, name);
    lemma_encode_utf8_concat(l + base + sl + name, sl);
}

proof fn lemma_nested_file_link(base: Seq<char>, name: Seq<char>)
    ensures
        decode_chars("/"@ + url_encode_spec(base) + "/"@ + url_encode_spec(name)) == encode_utf8(
            "/"@ + base + "/"@ + name,
        ),
{
    lemma_plain_literals();
    let sl = "/"@;
    let en = url_encode_spec(name);
    let eb = url_encode_spec(base);
    let empty = Seq::<char>::empty();
    lemma_decode_encoded_then(encode_utf8(name), empty);
    lemma_decode_plain_then(sl, en + empty);
    lemma_decode_encoded_then(encode_utf8(base), sl + (en + empty));
    lemma_decode_plain_then(sl, eb + (sl + (en + empty)));
    assert(sl + eb + sl + en == sl + (eb + (sl + (en + empty))));
    lemma_encode_utf8_concat(sl, base);
    lemma_encode_utf8_concat(sl + base, sl);
    lemma_encode_utf8_concat(sl + base + sl, name);
}

/// Every link in the sidebar leads, once decoded, to the entry it names:
/// `/list/<dir>/<name>/` for a directory and `/<dir>/<name>` for a file.
pub proof fn lemma_entry_link_decodes(current: Seq<char>, name: Seq<char>, is_dir: bool)
    ensures
        url_decode_spec(entry_link(current, name, is_dir)) == entry_target(current, name, is_dir),
{
    if current.len() == 0 {
        if is_dir {
            lemma_top_dir_link(name);
        } else {
            lemma_top_file_link(name);
        }
    } else {
        let base = trim_end_spec(current, '/');
        if is_dir {
            lemma_nested_dir_link(base, name);
        } else {
            lemma_nested_file_link(base, name);
        }
    }
    lemma_url_decode_of_utf8(entry_link(current, name, is_dir), entry_target(current, name, is_dir));
}

/// The link to the parent directory leads, once decoded, to the parent's
/// listing, whatever characters the parent's name holds.
pub proof fn lemma_up_link_decodes(parent: Option<Seq<char>>)
    ensures
        url_decode_spec(up_link(parent)) == "/list/"@ + parent_link(parent) + "/"@,
{
    lemma_top_dir_link(parent_link(parent));
    lemma_url_decode_of_utf8(up_link(parent), "/list/"@ + parent_link(parent) + "/"@);
}

/// Whether `current` names the top level, where the sidebar shows drives
/// and reads no directory.
pub fn is_top_level_path(current: &str) -> (r: bool)
    ensures
        r == is_top_level(current@),
{
    current.is_empty() || str_eq(current, "/")
}

} // verus!
