//! Character-level string building blocks shared by the other modules.
//!
//! Strings are modelled by their view, a `Seq<char>`; every function here
//! states its result over that view.

use vstd::prelude::*;
use vstd::std_specs::iter::IteratorSpec;

verus! {

/// Appends one character to a string (`String::push`).
/// Trusted: the new contents are the old contents followed by `c`.
#[verifier::external_body]
pub(crate) fn push_char(s: &mut String, c: char)
    ensures
        final(s)@ == old(s)@.push(c),
{
    s.push(c);
}

/// The characters of `s`, in order.
pub fn chars_of(s: &str) -> (r: Vec<char>)
    ensures
        r@ == s@,
{
    let mut out: Vec<char> = Vec::new();
    let mut it = s.chars();
    let ghost total = s@;
    loop
        invariant
            it.remaining() == total.skip(out@.len() as int),
            out@ == total.take(out@.len() as int),
            out@.len() <= total.len(),
        ensures
            out@ == total,
        decreases total.len() - out@.len(),
    {
        match it.next() {
            Some(c) => {
                out.push(c);
            },
            None => {
                assert(out@ == total.take(total.len() as int));
                break ;
            },
        }
    }
    out
}

/// A string holding the characters `cs[from..to]`.
pub fn string_from_range(cs: &Vec<char>, from: usize, to: usize) -> (r: String)
    requires
        from <= to <= cs@.len(),
    ensures
        r@ == cs@.subrange(from as int, to as int),
{
    let mut out = String::new();
    let mut i = from;
    while i < to
        invariant
            from <= i <= to <= cs@.len(),
            out@ == cs@.subrange(from as int, i as int),
        decreases to - i,
    {
        push_char(&mut out, cs[i]);
        i = i + 1;
        assert(out@ == cs@.subrange(from as int, i as int));
    }
    out
}

/// A string holding exactly the characters of `cs`.
pub fn string_from_chars(cs: &Vec<char>) -> (r: String)
    ensures
        r@ == cs@,
{
    let r = string_from_range(cs, 0, cs.len());
    assert(cs@.subrange(0, cs@.len() as int) == cs@);
    r
}

/// Appends the characters of `s` to `out`.
pub fn append_string(out: &mut String, s: &String)
    ensures
        final(out)@ == old(out)@ + s@,
{
    out.append(s.as_str());
}

/// `s` with every occurrence of `from` replaced by `to`.
pub open spec fn replace_char_spec(s: Seq<char>, from: char, to: char) -> Seq<char> {
    s.map_values(|c: char| if c == from { to } else { c })
}

/// `s.replace(from, to)` for single characters.
pub fn replace_char(s: &str, from: char, to: char) -> (r: String)
    ensures
        r@ == replace_char_spec(s@, from, to),
{
    let cs = chars_of(s);
    let mut out = String::new();
    let mut i: usize = 0;
    while i < cs.len()
        invariant
            i <= cs@.len(),
            cs@ == s@,
            out@ == replace_char_spec(cs@.take(i as int), from, to),
        decreases cs@.len() - i,
    {
        let c = cs[i];
        if c == from {
            push_char(&mut out, to);
        } else {
            push_char(&mut out, c);
        }
        i = i + 1;
        assert(cs@.take(i as int) == cs@.take(i - 1 as int).push(c));
        assert(out@ == replace_char_spec(cs@.take(i as int), from, to));
    }
    assert(cs@.take(cs@.len() as int) == cs@);
    out
}

/// `s` without any of its trailing `c` characters (`trim_end_matches(c)`).
pub open spec fn trim_end_spec(s: Seq<char>, c: char) -> Seq<char>
    decreases s.len(),
{
    if s.len() > 0 && s.last() == c {
        trim_end_spec(s.drop_last(), c)
    } else {
        s
    }
}

/// `s` without any of its leading `c` characters (`trim_start_matches(c)`).
pub open spec fn trim_start_spec(s: Seq<char>, c: char) -> Seq<char>
    decreases s.len(),
{
    if s.len() > 0 && s[0] == c {
        trim_start_spec(s.drop_first(), c)
    } else {
        s
    }
}

/// Trimming trailing `c` twice trims no more than once.
pub proof fn lemma_trim_end_idempotent(s: Seq<char>, c: char)
    ensures
        trim_end_spec(trim_end_spec(s, c), c) == trim_end_spec(s, c),
        trim_end_spec(s, c).len() == 0 || trim_end_spec(s, c).last() != c,
    decreases s.len(),
{
    if s.len() > 0 && s.last() == c {
        lemma_trim_end_idempotent(s.drop_last(), c);
    }
}

proof fn lemma_trim_end_take(s: Seq<char>, c: char, n: int)
    requires
        0 <= n <= s.len(),
        forall|k: int| n <= k < s.len() ==> s[k] == c,
    ensures
        trim_end_spec(s, c) == trim_end_spec(s.take(n), c),
    decreases s.len() - n,
{
    if n < s.len() {
        assert(s.drop_last().take(n) == s.take(n));
        lemma_trim_end_take(s.drop_last(), c, n);
    } else {
        assert(s.take(n) == s);
    }
}

proof fn lemma_trim_start_skip(s: Seq<char>, c: char, n: int)
    requires
        0 <= n <= s.len(),
        forall|k: int| 0 <= k < n ==> s[k] == c,
    ensures
        trim_start_spec(s, c) == trim_start_spec(s.skip(n), c),
    decreases n,
{
    if n > 0 {
        assert(s.drop_first().skip(n - 1) == s.skip(n));
        lemma_trim_start_skip(s.drop_first(), c, n - 1);
    } else {
        assert(s.skip(0) == s);
    }
}

/// `s.trim_end_matches(c)`.
pub fn trim_end_char(s: &str, c: char) -> (r: String)
    ensures
        r@ == trim_end_spec(s@, c),
{
    let cs = chars_of(s);
    let mut n = cs.len();
    while n > 0 && cs[n - 1] == c
        invariant
            n <= cs@.len(),
            cs@ == s@,
            forall|k: int| n <= k < cs@.len() ==> cs@[k] == c,
        decreases n,
    {
        n = n - 1;
    }
    proof {
        lemma_trim_end_take(cs@, c, n as int);
        assert(cs@.take(n as int) == cs@.subrange(0, n as int));
    }
    string_from_range(&cs, 0, n)
}

/// `s.trim_start_matches(c)`.
pub fn trim_start_char(s: &str, c: char) -> (r: String)
    ensures
        r@ == trim_start_spec(s@, c),
{
    let cs = chars_of(s);
    let mut n: usize = 0;
    while n < cs.len() && cs[n] == c
        invariant
            n <= cs@.len(),
            cs@ == s@,
            forall|k: int| 0 <= k < n ==> cs@[k] == c,
        decreases cs@.len() - n,
    {
        n = n + 1;
    }
    proof {
        lemma_trim_start_skip(cs@, c, n as int);
        assert(cs@.skip(n as int) == cs@.subrange(n as int, cs@.len() as int));
    }
    string_from_range(&cs, n, cs.len())
}

/// Whether `p` is a prefix of `s` (`s.starts_with(p)`).
pub fn starts_with(s: &str, p: &str) -> (r: bool)
    ensures
        r == p@.is_prefix_of(s@),
{
    let cs = chars_of(s);
    let ps = chars_of(p);
    if ps.len() > cs.len() {
        return false;
    }
    let mut i: usize = 0;
    while i < ps.len()
        invariant
            i <= ps@.len() <= cs@.len(),
            cs@ == s@,
            ps@ == p@,
            forall|k: int| 0 <= k < i ==> ps@[k] == cs@[k],
        decreases ps@.len() - i,
    {
        if ps[i] != cs[i] {
            assert(ps@[i as int] != cs@.subrange(0, ps@.len() as int)[i as int]);
            return false;
        }
        i = i + 1;
    }
    assert(ps@ =~= cs@.subrange(0, ps@.len() as int));
    true
}

/// Whether `s` and `t` hold the same characters.
pub fn str_eq(s: &str, t: &str) -> (r: bool)
    ensures
        r == (s@ == t@),
{
    let a = chars_of(s);
    let b = chars_of(t);
    if a.len() != b.len() {
        return false;
    }
    let mut i: usize = 0;
    while i < a.len()
        invariant
            i <= a@.len(),
            a@.len() == b@.len(),
            a@ == s@,
            b@ == t@,
            forall|k: int| 0 <= k < i ==> a@[k] == b@[k],
        decreases a@.len() - i,
    {
        if a[i] != b[i] {
            return false;
        }
        i = i + 1;
    }
    assert(a@ =~= b@);
    true
}

/// Whether the last character of `s` is `c` (`s.ends_with(c)`).
pub fn ends_with_char(s: &str, c: char) -> (r: bool)
    ensures
        r == (s@.len() > 0 && s@.last() == c),
{
    let cs = chars_of(s);
    cs.len() > 0 && cs[cs.len() - 1] == c
}

/// `s.strip_prefix(p)`: the rest of `s` after `p`, when `s` starts with `p`.
pub fn strip_prefix(s: &str, p: &str) -> (r: Option<String>)
    ensures
        p@.is_prefix_of(s@) ==> (r matches Some(t) && t@ == s@.skip(p@.len() as int)),
        !p@.is_prefix_of(s@) ==> r is None,
{
    if starts_with(s, p) {
        let cs = chars_of(s);
        let n = chars_of(p).len();
        let t = string_from_range(&cs, n, cs.len());
        assert(cs@.subrange(n as int, cs@.len() as int) == s@.skip(p@.len() as int));
        Some(t)
    } else {
        None
    }
}

/// Index of the first occurrence of `c` in `s`.
pub open spec fn first_index_of(s: Seq<char>, c: char) -> Option<int>
    decreases s.len(),
{
    if s.len() == 0 {
        None
    } else if s[0] == c {
        Some(0)
    } else {
        match first_index_of(s.drop_first(), c) {
            Some(i) => Some(i + 1),
            None => None,
        }
    }
}

pub proof fn lemma_first_index_of(s: Seq<char>, c: char)
    ensures
        match first_index_of(s, c) {
            Some(i) => 0 <= i < s.len() && s[i] == c && forall|k: int| 0 <= k < i ==> s[k] != c,
            None => forall|k: int| 0 <= k < s.len() ==> s[k] != c,
        },
    decreases s.len(),
{
    if s.len() > 0 {
        lemma_first_index_of(s.drop_first(), c);
        if s[0] != c {
            match first_index_of(s.drop_first(), c) {
                Some(i) => {
                    assert forall|k: int| 0 <= k < i + 1 implies s[k] != c by {
                        if k > 0 {
                            assert(s[k] == s.drop_first()[k - 1]);
                        }
                    }
                },
                None => {
                    assert forall|k: int| 0 <= k < s.len() implies s[k] != c by {
                        if k > 0 {
                            assert(s[k] == s.drop_first()[k - 1]);
                        }
                    }
                },
            }
        }
    }
}

/// Position of the first `c` in `cs`, computed on a character vector.
pub fn find_char(cs: &Vec<char>, c: char) -> (r: Option<usize>)
    ensures
        match r {
            Some(i) => first_index_of(cs@, c) == Some(i as int),
            None => first_index_of(cs@, c) is None,
        },
        match r {
            Some(i) => i < cs@.len() && cs@[i as int] == c && forall|k: int|
                0 <= k < i ==> cs@[k] != c,
            None => forall|k: int| 0 <= k < cs@.len() ==> cs@[k] != c,
        },
{
    proof {
        lemma_first_index_of(cs@, c);
    }
    let mut i: usize = 0;
    while i < cs.len()
        invariant
            i <= cs@.len(),
            forall|k: int| 0 <= k < i ==> cs@[k] != c,
            match first_index_of(cs@, c) {
                Some(j) => 0 <= j < cs@.len() && cs@[j] == c && forall|k: int|
                    0 <= k < j ==> cs@[k] != c,
                None => forall|k: int| 0 <= k < cs@.len() ==> cs@[k] != c,
            },
        decreases cs@.len() - i,
    {
        if cs[i] == c {
            return Some(i);
        }
        i = i + 1;
    }
    None
}

} // verus!
