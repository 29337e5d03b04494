use evoxy::asyncwrite::{op_id, wants_async};
use evoxy::authority::authority_of;
use evoxy::encode::encode;
use evoxy::filter::split_leading_segment;
use evoxy::text;
use std::hash::{Hash, Hasher};

#[test]
fn unreserved_pass_through() {
    assert_eq!(encode("abcXYZ0189-._~"), "abcXYZ0189-._~");
}

#[test]
fn slashes_and_colons_are_escaped() {
    // The case that motivated this: a SPIFFE-derived physical id.
    assert_eq!(encode("spiffe://td/acme:1"), "spiffe%3A%2F%2Ftd%2Facme%3A1");
}

#[test]
fn other_reserved_and_utf8_are_escaped() {
    assert_eq!(encode("a b?c#d%e"), "a%20b%3Fc%23d%25e");
    // A multi-byte char is escaped byte-by-byte (é = 0xC3 0xA9).
    assert_eq!(encode("é"), "%C3%A9");
}

#[test]
fn encoded_text_decodes_to_itself() {
    for s in ["", "a/b", "%41", "~ü\u{10ffff}\0", "100%"] {
        let e = encode(s);
        assert!(e
            .chars()
            .all(|c| c.is_ascii_alphanumeric() || "-._~%".contains(c)));
        let mut bytes = Vec::new();
        let mut rest = e.as_bytes();
        while let Some((&b, tail)) = rest.split_first() {
            if b == b'%' {
                let hex = String::from_utf8(tail[..2].to_vec()).unwrap();
                bytes.push(u8::from_str_radix(&hex, 16).unwrap());
                rest = &tail[2..];
            } else {
                bytes.push(b);
                rest = tail;
            }
        }
        assert_eq!(bytes, s.as_bytes());
    }
}

#[test]
fn authority_of_strips_scheme_and_path() {
    assert_eq!(
        authority_of("http://eu-1.internal:9200"),
        Some("eu-1.internal:9200".to_owned())
    );
    assert_eq!(
        authority_of("https://os.local:9200/orders"),
        Some("os.local:9200".to_owned())
    );
    assert_eq!(authority_of("host:9200"), Some("host:9200".to_owned()));
    assert_eq!(authority_of(""), None);
    assert_eq!(authority_of("http://"), None);
}

#[test]
fn authority_of_fills_in_the_default_port() {
    assert_eq!(
        authority_of("https://alb.example.com"),
        Some("alb.example.com:443".to_owned())
    );
    assert_eq!(authority_of("http://h?q#f"), Some("h:80".to_owned()));
    assert_eq!(authority_of("ftp://h/x"), Some("h".to_owned()));
    assert_eq!(authority_of("h"), Some("h".to_owned()));
    // The colons of a bracketed literal belong to the host.
    assert_eq!(
        authority_of("https://[::1]/x"),
        Some("[::1]:443".to_owned())
    );
    assert_eq!(
        authority_of("https://[::1]:9200/x"),
        Some("[::1]:9200".to_owned())
    );
}

#[test]
fn split_leading_segment_edges() {
    assert_eq!(
        split_leading_segment("/acme/orders/_search?q=1"),
        Some(("acme".to_owned(), "/orders/_search?q=1".to_owned()))
    );
    // An empty tenant segment (double slash) is not a tenant.
    assert_eq!(split_leading_segment("//orders/_search"), None);
    // A bare segment has no remainder to route on.
    assert_eq!(split_leading_segment("/orders"), None);
}

#[test]
fn split_leading_segment_of_a_relative_target() {
    assert_eq!(
        split_leading_segment("acme/"),
        Some(("acme".to_owned(), "/".to_owned()))
    );
    // A slash in the query is no slash of the path.
    assert_eq!(split_leading_segment("/acme?a/b"), None);
}

#[test]
fn wants_async_matches_the_header() {
    assert!(wants_async(&[(
        "x-evoxy-write-mode".to_owned(),
        "async".to_owned()
    )]));
    assert!(wants_async(&[(
        "X-Evoxy-Write-Mode".to_owned(),
        "ASYNC".to_owned()
    )]));
    assert!(!wants_async(&[(
        "x-evoxy-write-mode".to_owned(),
        "sync".to_owned()
    )]));
    assert!(!wants_async(&[]));
}

#[test]
fn op_id_is_a_stable_hash() {
    for (path, body) in [
        ("/orders-acme/_doc/42", &b"{\"k\":1}"[..]),
        ("", b""),
        ("é", b"\xff\x00"),
    ] {
        let mut hasher = std::collections::hash_map::DefaultHasher::new();
        path.hash(&mut hasher);
        body.hash(&mut hasher);
        assert_eq!(op_id(path, body), format!("{:016x}", hasher.finish()));
        assert_eq!(op_id(path, body), op_id(path, body));
    }
    assert_ne!(op_id("a", b"b"), op_id("ab", b""));
}

#[test]
fn trim_follows_the_white_space_property() {
    for c in (0..0x11_0000u32).filter_map(char::from_u32) {
        assert_eq!(text::char_is_space(c), c.is_whitespace());
    }
    assert_eq!(text::trim("\u{3000} a b\t"), "a b");
    assert_eq!(text::trim(" \n"), "");
}

#[test]
fn small_operations() {
    assert_eq!(text::split("a--b", '-'), vec!["a", "", "b"]);
    assert_eq!(text::split("", '-'), vec![""]);
    assert_eq!(text::split_once("é=ü=", '='), Some(("é", "ü=")));
    assert_eq!(text::split_once_text("a://b://", "://"), Some(("a", "b://")));
    assert_eq!(text::split_once_text("ab", "://"), None);
    assert_eq!(text::replace("{p}-{p}{", "{p}", "{p}"), "{p}-{p}{");
    assert_eq!(text::replace("aXaXX", "X", ""), "aa");
    assert_eq!(text::strip_prefix("/x", "/"), Some("x"));
    assert_eq!(text::strip_prefix("x", "/x"), None);
    assert!(text::same_ignoring_case("AbZ[", "aBz["));
    assert!(!text::same_ignoring_case("@[", "`{"));
    assert!(!text::same("a", "ab"));
    let mut out = String::new();
    text::push_decimal(&mut out, 0);
    text::push_decimal(&mut out, u128::MAX);
    assert_eq!(out, format!("0{}", u128::MAX));
}
