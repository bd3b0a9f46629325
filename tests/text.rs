use eapi::text::{decimal, encode_query, parse_decimal, split_on};
use eapi::Sources;

fn percent_decode(s: &str) -> Vec<u8> {
    let b = s.as_bytes();
    let mut out = Vec::new();
    let mut i = 0;
    while i < b.len() {
        if b[i] == b'%' && i + 2 < b.len() {
            let hex = std::str::from_utf8(&b[i + 1..i + 3]).unwrap();
            out.push(u8::from_str_radix(hex, 16).unwrap());
            i += 3;
        } else {
            out.push(b[i]);
            i += 1;
        }
    }
    out
}

#[test]
fn encode_keeps_alphanumerics() {
    assert_eq!(encode_query("wolf anthro"), "wolf%20anthro");
    assert_eq!(encode_query("AZaz09"), "AZaz09");
    assert_eq!(encode_query(""), "");
}

#[test]
fn encode_every_utf8_byte() {
    assert_eq!(encode_query("é"), "%C3%A9");
    assert_eq!(encode_query("rating:s"), "rating%3As");
    assert_eq!(encode_query("a\nb"), "a%0Ab");
    assert_eq!(encode_query("狼"), "%E7%8B%BC");
}

#[test]
fn encode_round_trips() {
    for q in ["wolf anthro", "fox~ -cat order:score", "été 狼 🐺", "%%", ""] {
        let e = encode_query(q);
        assert!(e.chars().all(|c| c.is_ascii_alphanumeric() || c == '%'));
        assert_eq!(String::from_utf8(percent_decode(&e)).unwrap(), q);
    }
}

#[test]
fn decimal_rendering() {
    assert_eq!(decimal(0), "0");
    assert_eq!(decimal(7), "7");
    assert_eq!(decimal(587), "587");
    assert_eq!(decimal(u64::MAX), "18446744073709551615");
}

#[test]
fn decimal_parsing() {
    assert_eq!(parse_decimal("10"), Some(10));
    assert_eq!(parse_decimal("+12"), Some(12));
    assert_eq!(parse_decimal("007"), Some(7));
    assert_eq!(parse_decimal("18446744073709551615"), Some(u64::MAX));
    assert_eq!(parse_decimal("18446744073709551616"), None);
    assert_eq!(parse_decimal(""), None);
    assert_eq!(parse_decimal("+"), None);
    assert_eq!(parse_decimal("-1"), None);
    assert_eq!(parse_decimal("abc"), None);
    assert_eq!(parse_decimal(" 1"), None);
    for s in ["10", "+12", "", "+", "-1", "1a", "99999999999999999999"] {
        assert_eq!(parse_decimal(s), u64::from_str_radix(s, 10).ok());
    }
}

#[test]
fn split_like_str_split() {
    for (s, sep) in [("10,abc,12", ','), ("", ','), (",", ','), ("a b  c", ' '), ("x,", ',')] {
        let expected: Vec<String> = s.split(sep).map(|p| p.to_string()).collect();
        assert_eq!(split_on(s, sep), expected);
    }
}

#[test]
fn request_targets() {
    let s = Sources::E621;
    assert_eq!(s.index_start(), 1);
    assert_eq!(s.post_request(12).url, "https://e621.net/post/show.json?id=12");
    assert_eq!(s.user_request(3).url, "https://e621.net/user/index.json?id=3");
    assert_eq!(
        Sources::E926.comment_request(5, 2).url,
        "https://e926.net/comment/index.json?post_id=5&page=2"
    );
    assert_eq!(
        Sources::E926.search_request("a%20b", 3).url,
        "https://e926.net/post/index.json?tags=a%20b&page=3"
    );
    assert_eq!(s.pool_request(587, 1).user_agent, eapi::user_agent());
}
