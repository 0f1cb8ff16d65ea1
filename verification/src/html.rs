//! Escaping text for HTML element content and double-quoted attributes.

use vstd::prelude::*;
use crate::text::{chars_of, push_char};

verus! {

/// The escaped form of one character.
pub open spec fn escape_char(c: char) -> Seq<char> {
    if c == '&' {
        seq!['&', 'a', 'm', 'p', ';']
    } else if c == '<' {
        seq!['&', 'l', 't', ';']
    } else if c == '>' {
        seq!['&', 'g', 't', ';']
    } else if c == '"' {
        seq!['&', 'q', 'u', 'o', 't', ';']
    } else {
        seq![c]
    }
}

/// Every character of `s` replaced by its escaped form.
pub open spec fn escape_spec(s: Seq<char>) -> Seq<char>
    decreases s.len(),
{
    if s.len() == 0 {
        seq![]
    } else {
        escape_spec(s.drop_last()) + escape_char(s.last())
    }
}

/// Whether `s` holds none of the characters that HTML escaping rewrites.
pub open spec fn needs_no_escape(s: Seq<char>) -> bool {
    forall|i: int| 0 <= i < s.len() ==> s[i] != '&' && s[i] != '<' && s[i] != '>' && s[i] != '"'
}

/// Whether `s` holds no character that could end an element's text or a
/// double-quoted attribute value.
pub open spec fn attribute_safe(s: Seq<char>) -> bool {
    forall|i: int| 0 <= i < s.len() ==> s[i] != '<' && s[i] != '>' && s[i] != '"'
}

/// Replaces `&`, `<`, `>` and `"` by their character references.
pub fn html_escape(s: &str) -> (r: String)
    ensures
        r@ == escape_spec(s@),
{
    let cs = chars_of(s);
    let mut out = String::new();
    let mut i: usize = 0;
    while i < cs.len()
        invariant
            i <= cs@.len(),
            cs@ == s@,
            out@ == escape_spec(cs@.take(i as int)),
        decreases cs@.len() - i,
    {
        let c = cs[i];
        if c == '&' {
            out.append("&amp;");
        } else if c == '<' {
            out.append("&lt;");
        } else if c == '>' {
            out.append("&gt;");
        } else if c == '"' {
            out.append("&quot;");
        } else {
            push_char(&mut out, c);
        }
        proof {
            reveal_strlit("&amp;");
            reveal_strlit("&lt;");
            reveal_strlit("&gt;");
            reveal_strlit("&quot;");
            assert(cs@.take(i + 1 as int).drop_last() == cs@.take(i as int));
            assert(c == '&' ==> out@ =~= escape_spec(cs@.take(i + 1 as int)));
            assert(c == '<' ==> out@ =~= escape_spec(cs@.take(i + 1 as int)));
            assert(c == '>' ==> out@ =~= escape_spec(cs@.take(i + 1 as int)));
            assert(c == '"' ==> out@ =~= escape_spec(cs@.take(i + 1 as int)));
        }
        i = i + 1;
    }
    assert(cs@.take(cs@.len() as int) == cs@);
    out
}

/// Escaped text never holds `<`, `>` or `"`: it can stand inside an element
/// or a double-quoted attribute value without ending it.
pub proof fn lemma_escape_attribute_safe(s: Seq<char>)
    ensures
        attribute_safe(escape_spec(s)),
    decreases s.len(),
{
    if s.len() > 0 {
        lemma_escape_attribute_safe(s.drop_last());
        let a = escape_spec(s.drop_last());
        let b = escape_char(s.last());
        assert forall|i: int| 0 <= i < (a + b).len() implies (a + b)[i] != '<' && (a + b)[i]
            != '>' && (a + b)[i] != '"' by {
            if i >= a.len() {
                assert((a + b)[i] == b[i - a.len()]);
            }
        }
    }
}

/// Escaping leaves text that holds none of `&`, `<`, `>`, `"` unchanged.
pub proof fn lemma_escape_identity(s: Seq<char>)
    requires
        needs_no_escape(s),
    ensures
        escape_spec(s) == s,
    decreases s.len(),
{
    if s.len() > 0 {
        lemma_escape_identity(s.drop_last());
        assert(s.drop_last().push(s.last()) == s);
    }
}

/// Escaping distributes over concatenation.
pub proof fn lemma_escape_concat(a: Seq<char>, b: Seq<char>)
    ensures
        escape_spec(a + b) == escape_spec(a) + escape_spec(b),
    decreases b.len(),
{
    if b.len() == 0 {
        assert(a + b == a);
    } else {
        lemma_escape_concat(a, b.drop_last());
        assert((a + b).drop_last() == a + b.drop_last());
        assert((a + b).last() == b.last());
    }
}

/// Reads escaped text back: each of `&amp;`, `&lt;`, `&gt;`, `&quot;` (taken
/// from the left) stands for its character, every other character for itself.
pub open spec fn unescape_spec(t: Seq<char>) -> Seq<char>
    decreases t.len(),
{
    if t.len() == 0 {
        seq![]
    } else if escape_char('&').is_prefix_of(t) {
        seq!['&'] + unescape_spec(t.skip(5))
    } else if escape_char('<').is_prefix_of(t) {
        seq!['<'] + unescape_spec(t.skip(4))
    } else if escape_char('>').is_prefix_of(t) {
        seq!['>'] + unescape_spec(t.skip(4))
    } else if escape_char('"').is_prefix_of(t) {
        seq!['"'] + unescape_spec(t.skip(6))
    } else {
        seq![t[0]] + unescape_spec(t.skip(1))
    }
}

/// Reading back an escaped character followed by any text gives the
/// character, then the reading of that text.
proof fn lemma_unescape_char_then(c: char, rest: Seq<char>)
    ensures
        unescape_spec(escape_char(c) + rest) == seq![c] + unescape_spec(rest),
{
    let t = escape_char(c) + rest;
    let n = escape_char(c).len() as int;
    assert(t.skip(n) == rest);
    assert(t[0] == escape_char(c)[0]);
    if n > 1 {
        assert(t[1] == escape_char(c)[1]);
    }
    if c == '&' {
        assert(escape_char('&').is_prefix_of(t));
    } else if c == '<' {
        assert(escape_char('<').is_prefix_of(t));
    } else if c == '>' {
        assert(escape_char('>').is_prefix_of(t));
    } else if c == '"' {
        assert(escape_char('"').is_prefix_of(t));
    }
}

/// Escaping a text starts with escaping its first character.
proof fn lemma_escape_first(s: Seq<char>)
    requires
        s.len() > 0,
    ensures
        escape_spec(s) == escape_char(s[0]) + escape_spec(s.drop_first()),
{
    lemma_escape_concat(seq![s[0]], s.drop_first());
    assert(seq![s[0]] + s.drop_first() == s);
    let one = seq![s[0]];
    assert(one.drop_last() == Seq::<char>::empty());
    assert(escape_spec(one) == escape_spec(one.drop_last()) + escape_char(one.last()));
    assert(Seq::<char>::empty() + escape_char(s[0]) == escape_char(s[0]));
}

/// Escaping loses nothing: reading the escaped text back gives the text.
pub proof fn lemma_unescape_escape(s: Seq<char>)
    ensures
        unescape_spec(escape_spec(s)) == s,
    decreases s.len(),
{
    if s.len() > 0 {
        lemma_escape_first(s);
        lemma_unescape_char_then(s[0], escape_spec(s.drop_first()));
        lemma_unescape_escape(s.drop_first());
        assert(seq![s[0]] + s.drop_first() == s);
    }
}

/// Different texts have different escaped forms.
pub proof fn lemma_escape_injective(a: Seq<char>, b: Seq<char>)
    requires
        escape_spec(a) == escape_spec(b),
    ensures
        a == b,
{
    lemma_unescape_escape(a);
    lemma_unescape_escape(b);
}

} // verus!
