use mdviz::url::{url_decode, url_encode_path};

/// The decoding the viewer has always done, written with std alone.
fn reference_decode(s: &str) -> String {
    let mut bytes = Vec::new();
    let mut chars = s.chars();
    while let Some(c) = chars.next() {
        if c == '%' {
            let hi = chars.next().and_then(|c| c.to_digit(16)).unwrap_or(0);
            let lo = chars.next().and_then(|c| c.to_digit(16)).unwrap_or(0);
            bytes.push((hi * 16 + lo) as u8);
        } else {
            let mut buf = [0u8; 4];
            let encoded = c.encode_utf8(&mut buf);
            bytes.extend_from_slice(encoded.as_bytes());
        }
    }
    String::from_utf8(bytes.clone()).unwrap_or_else(|_| String::from_utf8_lossy(&bytes).to_string())
}

fn reference_encode(path: &str) -> String {
    let mut result = String::new();
    for b in path.bytes() {
        match b {
            b'A'..=b'Z' | b'a'..=b'z' | b'0'..=b'9' | b'/' | b'.' | b':' | b'-' | b'_' | b'\\' => {
                result.push(b as char);
            }
            _ => {
                result.push_str(&format!("%{:02X}", b));
            }
        }
    }
    result
}

const SAMPLES: [&str; 14] = [
    "",
    "/",
    "C:\\Program Files",
    "D:/docs/报告.md",
    "a+b&c#d",
    "100%",
    "%",
    "%4",
    "%G1",
    "%ff",
    "%e4%b8%ad",
    "emoji 👨‍👩‍👧",
    "tab\tnew\nline",
    "/list/D:/a b/",
];

#[test]
fn url_encode_path_keeps_unreserved_and_escapes_the_rest() {
    assert_eq!(url_encode_path("C:\\Program Files"), "C:\\Program%20Files");
    assert_eq!(url_encode_path("中"), "%E4%B8%AD");
    assert_eq!(url_encode_path("a+b&c#d"), "a%2Bb%26c%23d");
    assert_eq!(url_encode_path("Az09/.:-_\\"), "Az09/.:-_\\");
    assert_eq!(url_encode_path(""), "");
}

#[test]
fn url_decode_examples() {
    assert_eq!(url_decode("%E4%B8%AD"), "中");
    assert_eq!(url_decode("%e4%b8%ad"), "中");
    assert_eq!(url_decode("a%2Fb"), "a/b");
    assert_eq!(url_decode("%41%42"), "AB");
    assert_eq!(url_decode("plain text"), "plain text");
}

#[test]
fn url_decode_short_and_bad_escapes() {
    assert_eq!(url_decode("%"), "\u{0}");
    assert_eq!(url_decode("%4"), "@");
    assert_eq!(url_decode("%G1"), "\u{1}");
    assert_eq!(url_decode("%zz"), "\u{0}");
}

#[test]
fn url_decode_invalid_utf8_is_replaced() {
    assert_eq!(url_decode("%ff"), "\u{FFFD}");
    assert_eq!(url_decode("a%C3"), "a\u{FFFD}");
}

#[test]
fn url_roundtrip() {
    for s in SAMPLES {
        assert_eq!(url_decode(&url_encode_path(s)), s);
    }
}

#[test]
fn url_functions_match_reference() {
    for s in SAMPLES {
        assert_eq!(url_encode_path(s), reference_encode(s));
        assert_eq!(url_decode(s), reference_decode(s));
    }
}
