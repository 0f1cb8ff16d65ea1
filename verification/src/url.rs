//! Percent-encoding of paths for links, and percent-decoding of request paths.

use vstd::prelude::*;
use vstd::utf8::*;
use crate::text::{chars_of, push_char};

verus! {

broadcast use vstd::utf8::group_utf8_lib;

/// Bytes that a link keeps as they are: ASCII letters and digits and `/ . : - _ \`.
pub open spec fn is_unreserved(b: u8) -> bool {
    ||| 65 <= b <= 90
    ||| 97 <= b <= 122
    ||| 48 <= b <= 57
    ||| b == 47
    ||| b == 46
    ||| b == 58
    ||| b == 45
    ||| b == 95
    ||| b == 92
}

/// The upper-case hexadecimal digit for `n < 16`.
pub open spec fn hex_upper_spec(n: u8) -> char {
    if n < 10 {
        (48 + n) as char
    } else {
        (55 + n) as char
    }
}

/// The characters that stand for one byte in an encoded path.
pub open spec fn encode_byte(b: u8) -> Seq<char> {
    if is_unreserved(b) {
        seq![b as char]
    } else {
        seq!['%', hex_upper_spec(b / 16), hex_upper_spec(b % 16)]
    }
}

/// The encoding of a byte sequence, byte by byte.
pub open spec fn encode_bytes(bs: Seq<u8>) -> Seq<char>
    decreases bs.len(),
{
    if bs.len() == 0 {
        seq![]
    } else {
        encode_byte(bs[0]) + encode_bytes(bs.drop_first())
    }
}

/// The encoded form of a path: each byte of its UTF-8 form encoded.
pub open spec fn url_encode_spec(s: Seq<char>) -> Seq<char> {
    encode_bytes(encode_utf8(s))
}

/// The value of a hexadecimal digit (either case), or 0 for any other character.
pub open spec fn hex_value_spec(c: char) -> u32 {
    if '0' <= c <= '9' {
        (c as u32 - 48) as u32
    } else if 'a' <= c <= 'f' {
        (c as u32 - 87) as u32
    } else if 'A' <= c <= 'F' {
        (c as u32 - 55) as u32
    } else {
        0
    }
}

/// The bytes a request path stands for: `%` and the next two characters give
/// one byte (a missing or non-hexadecimal digit counts as 0, and is still
/// consumed); any other character gives its UTF-8 bytes.
pub open spec fn decode_chars(s: Seq<char>) -> Seq<u8>
    decreases s.len(),
{
    if s.len() == 0 {
        seq![]
    } else if s[0] == '%' {
        let hi = if s.len() > 1 {
            hex_value_spec(s[1])
        } else {
            0
        };
        let lo = if s.len() > 2 {
            hex_value_spec(s[2])
        } else {
            0
        };
        let n: int = if s.len() >= 3 {
            3
        } else {
            s.len() as int
        };
        seq![(hi * 16 + lo) as u8] + decode_chars(s.skip(n))
    } else {
        encode_scalar(s[0] as u32) + decode_chars(s.drop_first())
    }
}

/// What `String::from_utf8_lossy` makes of a byte sequence.
pub uninterp spec fn utf8_lossy(bytes: Seq<u8>) -> Seq<char>;

/// The text a decoded path stands for: the decoded bytes read as UTF-8,
/// or read leniently where they are not valid UTF-8.
pub open spec fn url_decode_spec(s: Seq<char>) -> Seq<char> {
    let b = decode_chars(s);
    if valid_utf8(b) {
        decode_utf8(b)
    } else {
        utf8_lossy(b)
    }
}

/// `String::from_utf8`: the text that `bytes` encode, when they are valid UTF-8.
/// Trusted: `Some` exactly for valid UTF-8, holding the decoded characters.
#[verifier::external_body]
fn string_from_utf8(bytes: Vec<u8>) -> (r: Option<String>)
    ensures
        r is Some <==> valid_utf8(bytes@),
        r matches Some(t) ==> t@ == decode_utf8(bytes@),
{
    String::from_utf8(bytes).ok()
}

/// `String::from_utf8_lossy`: the text of `bytes`, with each invalid sequence
/// replaced by U+FFFD.
/// Trusted: the result is `utf8_lossy(bytes)`, and equals the plain decoding
/// when the bytes are valid UTF-8. The rule for invalid sequences is not stated.
#[verifier::external_body]
pub(crate) fn string_from_utf8_lossy(bytes: &[u8]) -> (r: String)
    ensures
        r@ == utf8_lossy(bytes@),
        valid_utf8(bytes@) ==> r@ == decode_utf8(bytes@),
{
    String::from_utf8_lossy(bytes).to_string()
}

/// The upper-case hexadecimal digit for a value below 16.
pub fn hex_upper(n: u8) -> (c: char)
    requires
        n < 16,
    ensures
        c == hex_upper_spec(n),
{
    if n < 10 {
        (48 + n) as char
    } else {
        (55 + n) as char
    }
}

/// `c.to_digit(16).unwrap_or(0)`.
pub fn hex_value(c: char) -> (v: u32)
    ensures
        v == hex_value_spec(c),
        v < 16,
{
    if '0' <= c && c <= '9' {
        (c as u32) - 48
    } else if 'a' <= c && c <= 'f' {
        (c as u32) - 87
    } else if 'A' <= c && c <= 'F' {
        (c as u32) - 55
    } else {
        0
    }
}

/// Appends the UTF-8 encoding of `c` (as `char::encode_utf8` writes it).
pub fn push_utf8(out: &mut Vec<u8>, c: char)
    ensures
        final(out)@ == old(out)@ + encode_scalar(c as u32),
{
    let v = c as u32;
    proof {
        char_is_scalar(c);
    }
    if v < 0x80 {
        out.push((v & 0x7F) as u8);
    } else if v < 0x800 {
        out.push(0xC0u8 | ((v >> 6) & 0x1F) as u8);
        out.push(0x80u8 | (v & 0x3F) as u8);
    } else if v < 0x10000 {
        out.push(0xE0u8 | ((v >> 12) & 0x0F) as u8);
        out.push(0x80u8 | ((v >> 6) & 0x3F) as u8);
        out.push(0x80u8 | (v & 0x3F) as u8);
    } else {
        out.push(0xF0u8 | ((v >> 18) & 0x7) as u8);
        out.push(0x80u8 | ((v >> 12) & 0x3F) as u8);
        out.push(0x80u8 | ((v >> 6) & 0x3F) as u8);
        out.push(0x80u8 | (v & 0x3F) as u8);
    }
}

/// Percent-encodes every byte of `path` that is not a letter, a digit or one
/// of `/ . : - _ \`, as `%` and two upper-case hexadecimal digits.
pub fn url_encode_path(path: &str) -> (r: String)
    ensures
        r@ == url_encode_spec(path@),
{
    let bytes = path.as_bytes();
    let ghost bs = bytes@;
    let mut out = String::new();
    let mut i: usize = 0;
    assert(bs.skip(0) == bs);
    while i < bytes.len()
        invariant
            i <= bs.len(),
            bytes@ == bs,
            bs == encode_utf8(path@),
            encode_bytes(bs) == out@ + encode_bytes(bs.skip(i as int)),
        decreases bs.len() - i,
    {
        let b = bytes[i];
        proof {
            assert(bs.skip(i as int)[0] == b);
            assert(bs.skip(i as int).drop_first() == bs.skip(i + 1 as int));
        }
        let ghost before = out@;
        if (65 <= b && b <= 90) || (97 <= b && b <= 122) || (48 <= b && b <= 57) || b == 47 || b
            == 46 || b == 58 || b == 45 || b == 95 || b == 92 {
            push_char(&mut out, b as char);
            assert(out@ == before + encode_byte(b));
        } else {
            push_char(&mut out, '%');
            push_char(&mut out, hex_upper(b / 16));
            push_char(&mut out, hex_upper(b % 16));
            assert(out@ == before + encode_byte(b));
        }
        i = i + 1;
    }
    assert(bs.skip(bs.len() as int) == Seq::<u8>::empty());
    assert(out@ + Seq::<char>::empty() == out@);
    out
}

/// Decodes `%XX` escapes (and reads the rest as UTF-8) in a request path.
pub fn url_decode(s: &str) -> (r: String)
    ensures
        r@ == url_decode_spec(s@),
{
    let cs = chars_of(s);
    let mut bytes: Vec<u8> = Vec::new();
    let mut i: usize = 0;
    assert(cs@.skip(0) == cs@);
    while i < cs.len()
        invariant
            i <= cs@.len(),
            cs@ == s@,
            decode_chars(cs@) == bytes@ + decode_chars(cs@.skip(i as int)),
        decreases cs@.len() - i,
    {
        let c = cs[i];
        let ghost rest = cs@.skip(i as int);
        assert(rest[0] == c);
        if c == '%' {
            let hi = if cs.len() - i > 1 {
                hex_value(cs[i + 1])
            } else {
                0
            };
            let lo = if cs.len() - i > 2 {
                hex_value(cs[i + 2])
            } else {
                0
            };
            let n: usize = if cs.len() - i >= 3 {
                3
            } else {
                cs.len() - i
            };
            proof {
                if i + 1 < cs.len() {
                    assert(rest[1] == cs@[i + 1]);
                }
                if i + 2 < cs.len() {
                    assert(rest[2] == cs@[i + 2]);
                }
                assert(rest.skip(n as int) == cs@.skip(i + n));
            }
            bytes.push((hi * 16 + lo) as u8);
            i = i + n;
        } else {
            push_utf8(&mut bytes, c);
            assert(rest.drop_first() == cs@.skip(i + 1));
            i = i + 1;
        }
    }
    assert(cs@.skip(cs@.len() as int) == Seq::<char>::empty());
    assert(bytes@ + Seq::<u8>::empty() == bytes@);
    let copy = bytes.clone();
    match string_from_utf8(bytes) {
        Some(t) => t,
        None => string_from_utf8_lossy(copy.as_slice()),
    }
}

proof fn lemma_hex_roundtrip(n: u8)
    requires
        n < 16,
    ensures
        hex_value_spec(hex_upper_spec(n)) == n,
        hex_upper_spec(n) != '%',
{
}

proof fn lemma_ascii_byte_encoding(b: u8)
    requires
        b < 128,
    ensures
        encode_scalar((b as char) as u32) == seq![b],
        (b as char) as u32 == b,
{
    assert((b as char) as u32 == b);
    assert(b & 0x7F == b) by (bit_vector)
        requires
            b < 128,
    ;
    assert((b as u32) & 0x7F == b as u32) by (bit_vector)
        requires
            b < 128,
    ;
}

/// Decoding undoes encoding, for every byte sequence.
pub proof fn lemma_decode_encode_bytes(bs: Seq<u8>)
    ensures
        decode_chars(encode_bytes(bs)) == bs,
    decreases bs.len(),
{
    if bs.len() > 0 {
        let b = bs[0];
        let rest = encode_bytes(bs.drop_first());
        let e = encode_bytes(bs);
        lemma_decode_encode_bytes(bs.drop_first());
        assert(e == encode_byte(b) + rest);
        if is_unreserved(b) {
            lemma_ascii_byte_encoding(b);
            assert(e[0] == b as char);
            assert(e.drop_first() == rest);
            assert(seq![b] + bs.drop_first() == bs);
        } else {
            lemma_hex_roundtrip(b / 16);
            lemma_hex_roundtrip(b % 16);
            assert(e[0] == '%');
            assert(e[1] == hex_upper_spec(b / 16));
            assert(e[2] == hex_upper_spec(b % 16));
            assert(e.skip(3) == rest);
            assert(((b / 16) as u32 * 16 + (b % 16) as u32) as u8 == b);
            assert(seq![b] + bs.drop_first() == bs);
        }
    }
}

/// Decoding an encoded path gives the path back.
pub proof fn lemma_url_roundtrip(s: Seq<char>)
    ensures
        url_decode_spec(url_encode_spec(s)) == s,
{
    lemma_decode_encode_bytes(encode_utf8(s));
}

/// A path without `%` decodes to itself.
pub proof fn lemma_decode_plain(s: Seq<char>)
    requires
        forall|i: int| 0 <= i < s.len() ==> s[i] != '%',
    ensures
        decode_chars(s) == encode_utf8(s),
        url_decode_spec(s) == s,
    decreases s.len(),
{
    if s.len() > 0 {
        lemma_decode_plain(s.drop_first());
    }
    encode_utf8_valid_utf8(s);
    encode_utf8_decode_utf8(s);
}

/// Encoded paths are ASCII and hold only unreserved characters and `%` escapes.
pub proof fn lemma_encoded_chars(bs: Seq<u8>)
    ensures
        forall|i: int|
            0 <= i < encode_bytes(bs).len() ==> {
                let c = #[trigger] encode_bytes(bs)[i];
                c == '%' || ('0' <= c <= '9') || ('A' <= c <= 'Z') || ('a' <= c <= 'z') || c
                    == '/' || c == '.' || c == ':' || c == '-' || c == '_' || c == '\\'
            },
    decreases bs.len(),
{
    if bs.len() > 0 {
        lemma_encoded_chars(bs.drop_first());
        let e = encode_bytes(bs);
        let head = encode_byte(bs[0]);
        let rest = encode_bytes(bs.drop_first());
        assert(e == head + rest);
        assert forall|i: int| 0 <= i < e.len() implies {
            let c = #[trigger] e[i];
            c == '%' || ('0' <= c <= '9') || ('A' <= c <= 'Z') || ('a' <= c <= 'z') || c == '/'
                || c == '.' || c == ':' || c == '-' || c == '_' || c == '\\'
        } by {
            if i >= head.len() {
                assert(e[i] == rest[i - head.len()]);
            }
        }
    }
}

/// Decoding an encoded piece followed by more text decodes the piece back
/// to its bytes and goes on with the rest.
pub proof fn lemma_decode_encoded_then(bs: Seq<u8>, rest: Seq<char>)
    ensures
        decode_chars(encode_bytes(bs) + rest) == bs + decode_chars(rest),
    decreases bs.len(),
{
    if bs.len() == 0 {
        assert(encode_bytes(bs) + rest == rest);
        assert(bs + decode_chars(rest) == decode_chars(rest));
    } else {
        let b = bs[0];
        let tail = encode_bytes(bs.drop_first()) + rest;
        let e = encode_bytes(bs) + rest;
        lemma_decode_encoded_then(bs.drop_first(), rest);
        assert(e == encode_byte(b) + tail);
        if is_unreserved(b) {
            lemma_ascii_byte_encoding(b);
            assert(e[0] == b as char);
            assert(e.drop_first() == tail);
        } else {
            lemma_hex_roundtrip(b / 16);
            lemma_hex_roundtrip(b % 16);
            assert(e[0] == '%');
            assert(e[1] == hex_upper_spec(b / 16));
            assert(e[2] == hex_upper_spec(b % 16));
            assert(e.skip(3) == tail);
            assert(((b / 16) as u32 * 16 + (b % 16) as u32) as u8 == b);
        }
        assert(seq![b] + (bs.drop_first() + decode_chars(rest)) == bs + decode_chars(rest));
    }
}

/// Decoding text without `%` followed by more text gives the text's UTF-8
/// bytes and goes on with the rest.
pub proof fn lemma_decode_plain_then(s: Seq<char>, rest: Seq<char>)
    requires
        forall|i: int| 0 <= i < s.len() ==> s[i] != '%',
    ensures
        decode_chars(s + rest) == encode_utf8(s) + decode_chars(rest),
    decreases s.len(),
{
    if s.len() == 0 {
        assert(s + rest == rest);
        assert(encode_utf8(s) + decode_chars(rest) == decode_chars(rest));
    } else {
        lemma_decode_plain_then(s.drop_first(), rest);
        assert((s + rest)[0] == s[0]);
        assert((s + rest).drop_first() == s.drop_first() + rest);
        assert(encode_scalar(s[0] as u32) + (encode_utf8(s.drop_first()) + decode_chars(rest))
            == encode_utf8(s) + decode_chars(rest));
    }
}

/// The UTF-8 form of joined texts is the join of their UTF-8 forms.
pub proof fn lemma_encode_utf8_concat(a: Seq<char>, b: Seq<char>)
    ensures
        encode_utf8(a + b) == encode_utf8(a) + encode_utf8(b),
    decreases a.len(),
{
    if a.len() == 0 {
        assert(a + b == b);
    } else {
        lemma_encode_utf8_concat(a.drop_first(), b);
        assert((a + b).drop_first() == a.drop_first() + b);
        assert((a + b)[0] == a[0]);
    }
}

/// A decoded text whose bytes are the UTF-8 form of `s` is `s`.
pub proof fn lemma_url_decode_of_utf8(t: Seq<char>, s: Seq<char>)
    requires
        decode_chars(t) == encode_utf8(s),
    ensures
        url_decode_spec(t) == s,
{
    encode_utf8_valid_utf8(s);
    encode_utf8_decode_utf8(s);
}

} // verus!
