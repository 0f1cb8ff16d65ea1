//! File-system paths: the parts of a path that `std::path` picks out, and the
//! drive letters present on the machine.
//!
//! How `std::path` splits a path depends on the platform it runs on, so only
//! what holds on every platform is stated of it: each part it returns is a
//! piece of the path it was given, the empty path and `/` have no parent, a
//! relative path (see `is_relative_path`) has one, and a path that is one
//! plain name (see `is_plain_name`) is split as the documentation of `Path`
//! describes.

use vstd::prelude::*;
use crate::text::push_char;

verus! {

/// Whether `part` occurs in `whole` as a contiguous piece.
pub open spec fn is_piece_of(part: Seq<char>, whole: Seq<char>) -> bool {
    exists|i: int| 0 <= i <= whole.len() && part.is_prefix_of(#[trigger] whole.skip(i))
}

/// A path that is one plain name: not empty, and without `/`, `\` or `:`, so
/// that every platform reads it as a single component with no prefix.
pub open spec fn is_plain_name(p: Seq<char>) -> bool {
    p.len() > 0 && forall|i: int| 0 <= i < p.len() ==> p[i] != '/' && p[i] != '\\' && p[i] != ':'
}

/// A relative path with no drive or other prefix: not empty, not starting
/// with a separator, and without `:`. Every platform reads it as ending in a
/// name, `.` or `..`, neither in a root nor in a prefix.
pub open spec fn is_relative_path(p: Seq<char>) -> bool {
    &&& p.len() > 0
    &&& p[0] != '/' && p[0] != '\\'
    &&& forall|i: int| 0 <= i < p.len() ==> p[i] != ':'
}

/// The root path `/`.
pub open spec fn is_root_path(p: Seq<char>) -> bool {
    p == seq!['/']
}

/// The name `..`.
pub open spec fn is_parent_name(p: Seq<char>) -> bool {
    p == seq!['.', '.']
}

/// A plain name other than `.` and `..`: the name of a file or directory.
pub open spec fn is_plain_file_name(p: Seq<char>) -> bool {
    is_plain_name(p) && p != seq!['.'] && !is_parent_name(p)
}

/// The index of the last `.` of `n`, or -1 without one.
pub open spec fn last_dot(n: Seq<char>) -> int
    decreases n.len(),
{
    if n.len() == 0 {
        -1
    } else if n.last() == '.' {
        n.len() - 1
    } else {
        last_dot(n.drop_last())
    }
}

/// The extension of a file name: what follows its last `.`, when that `.`
/// is not its first character; nothing otherwise.
pub open spec fn name_extension(n: Seq<char>) -> Option<Seq<char>> {
    if last_dot(n) >= 1 {
        Some(n.skip(last_dot(n) + 1))
    } else {
        None
    }
}

/// The stem of a file name: what precedes its last `.`, when that `.` is not
/// its first character; the whole name otherwise.
pub open spec fn name_stem(n: Seq<char>) -> Seq<char> {
    if last_dot(n) >= 1 {
        n.take(last_dot(n))
    } else {
        n
    }
}

/// The index of the last `\` of `p`, or -1 without one.
pub open spec fn last_backslash(p: Seq<char>) -> int
    decreases p.len(),
{
    if p.len() == 0 {
        -1
    } else if p.last() == '\\' {
        p.len() - 1
    } else {
        last_backslash(p.drop_last())
    }
}

/// The last name of a path written with `\` separators: what follows its
/// last `\` (all of it without one).
pub open spec fn final_name(p: Seq<char>) -> Seq<char> {
    p.skip(last_backslash(p) + 1)
}

/// An ASCII letter, as a drive is named.
pub open spec fn is_ascii_letter(c: char) -> bool {
    ('A' <= c && c <= 'Z') || ('a' <= c && c <= 'z')
}

/// Whether the `\`-separated name of `p` that starts at `i` is `.` or `..`.
pub open spec fn is_dot_name_at(p: Seq<char>, i: int) -> bool {
    &&& i == 0 || p[i - 1] == '\\'
    &&& p[i] == '.'
    &&& i + 1 == p.len() || p[i + 1] == '\\' || (p[i + 1] == '.' && (i + 2 == p.len() || p[i
        + 2] == '\\'))
}

/// A path written with `\` separators and no `/`, made of at least two
/// names, none empty, `.` or `..`, the first of which may be a drive `X:`
/// (an ASCII letter and `:`), and no other `:`. Where `\` separates names
/// (Windows) its parent is what precedes its last `\` (with the `\` after a
/// drive); elsewhere it is a single name, whose parent is empty.
pub open spec fn is_backslash_path(p: Seq<char>) -> bool {
    &&& p.len() > 0
    &&& p[0] != '\\' && p.last() != '\\'
    &&& last_backslash(p) >= 0
    &&& forall|i: int| 0 <= i < p.len() ==> p[i] != '/'
    &&& forall|i: int| 0 <= i < p.len() - 1 && #[trigger] p[i] == '\\' ==> p[i + 1] != '\\'
    &&& forall|i: int|
        0 <= i < p.len() && #[trigger] p[i] == ':' ==> i == 1 && is_ascii_letter(p[0]) && p.len() > 2 && p[2]
            == '\\'
    &&& forall|i: int| 0 <= i < p.len() ==> !#[trigger] is_dot_name_at(p, i)
}

/// The last `\` of `p` is a `\` of `p`, when there is one.
pub(crate) proof fn lemma_last_backslash(p: Seq<char>)
    ensures
        -1 <= last_backslash(p) < p.len(),
        last_backslash(p) >= 0 ==> p[last_backslash(p)] == '\\',
    decreases p.len(),
{
    if p.len() > 0 && p.last() != '\\' {
        lemma_last_backslash(p.drop_last());
    }
}

/// The parent of a `\`-separated path (see `is_backslash_path`) where `\`
/// separates names is not empty.
pub proof fn lemma_backslash_parent_not_empty(p: Seq<char>)
    requires
        is_backslash_path(p),
    ensures
        backslash_parent(p).len() > 0,
        backslash_parent(p).is_prefix_of(p),
{
    lemma_last_backslash(p);
}

/// The parent of a `\`-separated path where `\` separates names: what
/// precedes its last `\`, with that `\` kept after a bare drive (`X:\`).
pub open spec fn backslash_parent(p: Seq<char>) -> Seq<char> {
    let k = last_backslash(p);
    if k == 2 && p[1] == ':' {
        p.take(3)
    } else {
        p.take(k)
    }
}

/// A path with no `/`, not starting with `\\`, whose last name (after its
/// last `\`) holds no `:`, is not `..`, and has a `.` after its first
/// character. On every platform its extension is what follows that name's
/// last `.`: where `\` separates names the last name is the file name, and
/// elsewhere the whole path is, ending in the same text after its last `.`.
pub open spec fn has_dotted_name(p: Seq<char>) -> bool {
    let n = final_name(p);
    &&& forall|i: int| 0 <= i < p.len() ==> p[i] != '/'
    &&& !(p.len() >= 2 && p[0] == '\\' && p[1] == '\\')
    &&& forall|i: int| 0 <= i < n.len() ==> n[i] != ':'
    &&& last_dot(n) >= 1
    &&& !is_parent_name(n)
}

/// The extension of a path with a dotted last name (see `has_dotted_name`).
pub open spec fn dotted_extension(p: Seq<char>) -> Seq<char> {
    let n = final_name(p);
    n.skip(last_dot(n) + 1)
}

/// The text of an optional part.
pub open spec fn opt_text(o: Option<String>) -> Option<Seq<char>> {
    match o {
        Some(s) => Some(s@),
        None => None,
    }
}

/// `Path::exists`. Trusted for nothing: whether a path exists depends on the
/// machine and the moment.
#[verifier::external_body]
fn path_exists(p: &str) -> (r: bool) {
    std::path::Path::new(p).exists()
}

/// `Path::parent`, as text.
/// Trusted: a parent is a prefix of the path (it is a slice of it that starts
/// at its beginning); the empty path and the root `/` have none; a relative
/// path (see `is_relative_path`) has one, as it does not end in a root or a
/// prefix; a single plain name has the empty parent (as `Path::new("foo")`
/// has `""`); a `\`-separated path (see `is_backslash_path`) has either the
/// empty parent (where `\` is no separator, the path being one name) or the
/// part before its last `\` (`backslash_parent`, where `\` is a separator).
/// Which of the two, and which prefix other paths get, depends on the
/// platform and is not stated.
#[verifier::external_body]
fn path_parent(p: &str) -> (r: Option<String>)
    ensures
        r matches Some(q) ==> q@.is_prefix_of(p@),
        r is Some ==> p@.len() > 0 && !is_root_path(p@),
        is_relative_path(p@) ==> r is Some,
        is_plain_name(p@) ==> opt_text(r) == Some(Seq::<char>::empty()),
        is_backslash_path(p@) ==> opt_text(r) == Some(Seq::<char>::empty()) || opt_text(r) == Some(
            backslash_parent(p@),
        ),
{
    std::path::Path::new(p).parent().and_then(|q| q.to_str()).map(|q| q.to_string())
}

/// `Path::file_name`, as text.
/// Trusted: the name is a piece of the path; a path ending in `..` has none;
/// a plain file name is its own name. Which piece other paths give depends
/// on the platform and is not stated.
#[verifier::external_body]
fn path_file_name(p: &str) -> (r: Option<String>)
    ensures
        r matches Some(q) ==> is_piece_of(q@, p@),
        r is Some ==> !is_parent_name(p@),
        is_plain_file_name(p@) ==> opt_text(r) == Some(p@),
{
    std::path::Path::new(p).file_name().and_then(|q| q.to_str()).map(|q| q.to_string())
}

/// `Path::extension`, as text.
/// Trusted: the extension is a piece of the path; for a plain file name it is
/// what the documentation says (`name_extension`); for a path whose last
/// name is dotted (see `has_dotted_name`) it is what follows that name's
/// last `.` (`dotted_extension`), on every platform. Which piece other paths
/// give depends on the platform and is not stated.
#[verifier::external_body]
fn path_extension(p: &str) -> (r: Option<String>)
    ensures
        r matches Some(q) ==> is_piece_of(q@, p@),
        is_plain_file_name(p@) ==> opt_text(r) == name_extension(p@),
        has_dotted_name(p@) ==> opt_text(r) == Some(dotted_extension(p@)),
{
    std::path::Path::new(p).extension().and_then(|q| q.to_str()).map(|q| q.to_string())
}

/// `Path::file_stem`, as text.
/// Trusted: the stem is a piece of the path; for a plain file name it is
/// what the documentation says (`name_stem`). Which piece other paths give
/// depends on the platform and is not stated.
#[verifier::external_body]
fn path_file_stem(p: &str) -> (r: Option<String>)
    ensures
        r matches Some(q) ==> is_piece_of(q@, p@),
        is_plain_file_name(p@) ==> opt_text(r) == Some(name_stem(p@)),
{
    std::path::Path::new(p).file_stem().and_then(|q| q.to_str()).map(|q| q.to_string())
}

/// The parts of a file path that the page handlers use.
pub struct PathParts {
    pub parent: Option<String>,
    pub file_name: Option<String>,
    pub extension: Option<String>,
    pub file_stem: Option<String>,
}

/// What holds of the parent `std::path` finds for `p`, on every platform.
pub open spec fn parent_fits(p: Seq<char>, parent: Option<String>) -> bool {
    &&& parent matches Some(q) ==> q@.is_prefix_of(p)
    &&& p.len() == 0 ==> parent is None
    &&& is_root_path(p) ==> parent is None
    &&& is_relative_path(p) ==> parent is Some
    &&& is_plain_name(p) ==> (parent matches Some(q) && q@.len() == 0)
    &&& is_backslash_path(p) ==> (parent matches Some(q) && (q@.len() == 0 || q@ == backslash_parent(
        p,
    )))
}

/// What holds of the parts of `p` on every platform: each is a piece of
/// `p`, and a plain file name is split into its own name, its stem and its
/// extension.
pub open spec fn parts_of(p: Seq<char>, parts: PathParts) -> bool {
    &&& parent_fits(p, parts.parent)
    &&& is_parent_name(p) ==> parts.file_name is None
    &&& is_plain_file_name(p) ==> {
        &&& parts.file_name matches Some(q) && q@ == p
        &&& opt_text(parts.extension) == name_extension(p)
        &&& opt_text(parts.file_stem) == Some(name_stem(p))
    }
    &&& has_dotted_name(p) ==> opt_text(parts.extension) == Some(dotted_extension(p))
    &&& parts.file_name matches Some(q) ==> is_piece_of(q@, p)
    &&& parts.extension matches Some(q) ==> is_piece_of(q@, p)
    &&& parts.file_stem matches Some(q) ==> is_piece_of(q@, p)
}

/// Splits a path into the parts the handlers use.
pub fn path_parts(p: &str) -> (r: PathParts)
    ensures
        parts_of(p@, r),
{
    PathParts {
        parent: path_parent(p),
        file_name: path_file_name(p),
        extension: path_extension(p),
        file_stem: path_file_stem(p),
    }
}

/// The parent of a path, or nothing (see `parent_fits`).
pub fn parent_of(p: &str) -> (r: Option<String>)
    ensures
        parent_fits(p@, r),
{
    path_parent(p)
}

/// The letter of drive number `i` (0 for `A`).
pub open spec fn drive_letter(i: int) -> char {
    (65 + i) as char
}

/// The label of drive number `i`: its letter and a colon.
pub open spec fn drive_label(i: int) -> Seq<char> {
    seq![drive_letter(i), ':']
}

/// The labels of the drives whose flag is set, in order of their letters.
pub open spec fn drive_labels(flags: Seq<bool>) -> Seq<Seq<char>>
    decreases flags.len(),
{
    if flags.len() == 0 {
        seq![]
    } else {
        let prev = drive_labels(flags.drop_last());
        if flags.last() {
            prev.push(drive_label(flags.len() - 1))
        } else {
            prev
        }
    }
}

/// The contents of a vector of strings.
pub open spec fn views(v: Seq<String>) -> Seq<Seq<char>> {
    v.map_values(|s: String| s@)
}

/// The root directory of drive number `i`: its letter, a colon and a backslash.
pub fn drive_root(i: u8) -> (r: String)
    requires
        i < 26,
    ensures
        r@ == drive_label(i as int).push('\\'),
{
    let mut out = String::new();
    push_char(&mut out, (65 + i) as char);
    push_char(&mut out, ':');
    push_char(&mut out, '\\');
    out
}

/// The labels (`A:` to `Z:`) of the drives whose flag is set.
pub fn drives_present(flags: &Vec<bool>) -> (r: Vec<String>)
    requires
        flags@.len() <= 26,
    ensures
        views(r@) == drive_labels(flags@),
{
    let mut out: Vec<String> = Vec::new();
    let mut i: usize = 0;
    while i < flags.len()
        invariant
            i <= flags@.len() <= 26,
            views(out@) == drive_labels(flags@.take(i as int)),
        decreases flags@.len() - i,
    {
        assert(flags@.take(i + 1 as int).drop_last() == flags@.take(i as int));
        if flags[i] {
            let mut label = String::new();
            push_char(&mut label, (65 + i as u8) as char);
            push_char(&mut label, ':');
            let ghost before = out@;
            out.push(label);
            assert(label@ == drive_label(i as int));
            assert(views(out@) == views(before).push(label@));
        }
        assert(views(out@) == drive_labels(flags@.take(i + 1 as int)));
        i = i + 1;
    }
    assert(flags@.take(flags@.len() as int) == flags@);
    out
}

/// The drives present on this machine, as `A:` to `Z:`: a drive is present
/// when its root directory exists.
pub fn get_all_drives() -> (r: Vec<String>)
    ensures
        exists|flags: Seq<bool>| flags.len() == 26 && views(r@) == drive_labels(flags),
{
    let mut flags: Vec<bool> = Vec::new();
    let mut i: u8 = 0;
    while i < 26
        invariant
            i <= 26,
            flags@.len() == i,
        decreases 26 - i,
    {
        let root = drive_root(i);
        flags.push(path_exists(root.as_str()));
        i = i + 1;
    }
    drives_present(&flags)
}

} // verus!
