use evoxy::abi::{find_header, replace_header, FilterRequest, FilterResponse, HttpVersion, MtlsIdentity};
use evoxy::trace::trace_id_of;

const TP: &str = "00-4bf92f3577b34da6a3ce929d0e0e4736-00f067aa0ba902b7-01";

fn req(path_and_query: &str) -> FilterRequest {
    FilterRequest {
        method: "GET".to_owned(),
        path_and_query: path_and_query.to_owned(),
        authority: "os.local".to_owned(),
        version: HttpVersion::Http2,
        headers: vec![("content-type".to_owned(), "application/json".to_owned())],
        body: Vec::new(),
        identity: MtlsIdentity::default(),
    }
}

#[test]
fn splits_path_and_query() {
    let r = req("/orders/_search?scroll=1m");
    assert_eq!(r.path(), "/orders/_search");
    assert_eq!(r.query(), Some("scroll=1m"));
}

#[test]
fn path_without_query() {
    let r = req("/orders/_doc/42");
    assert_eq!(r.path(), "/orders/_doc/42");
    assert_eq!(r.query(), None);
}

#[test]
fn target_is_rebuilt_from_path_and_query() {
    for target in ["/a?b?c", "?", "/a?", "é/ü?x=ß", ""] {
        let r = req(target);
        let rebuilt = match r.query() {
            Some(query) => format!("{}?{query}", r.path()),
            None => r.path().to_owned(),
        };
        assert_eq!(rebuilt, target);
        assert!(!r.path().contains('?'));
    }
}

#[test]
fn header_lookup_is_case_insensitive() {
    let r = req("/");
    assert_eq!(r.header("Content-Type"), Some("application/json"));
    assert_eq!(r.header("x-missing"), None);
}

#[test]
fn header_lookup_takes_the_first_match() {
    let headers = vec![
        ("X-A".to_owned(), "1".to_owned()),
        ("x-a".to_owned(), "2".to_owned()),
    ];
    assert_eq!(find_header(&headers, "x-A"), Some("1"));
    // Only ASCII letters are folded.
    let headers = vec![("x-É".to_owned(), "1".to_owned())];
    assert_eq!(find_header(&headers, "x-é"), None);
}

#[test]
fn grpc_detected_by_content_type() {
    let mut r = req("/");
    assert!(!r.is_grpc());
    r.headers[0].1 = "application/grpc+proto".to_owned();
    assert!(r.is_grpc());
}

#[test]
fn stable_id_prefers_uri_san_then_subject() {
    let mut id = MtlsIdentity {
        presented: true,
        subject: "CN=svc".to_owned(),
        uri_sans: vec!["spiffe://td/svc".to_owned()],
    };
    assert_eq!(id.stable_id(), "spiffe://td/svc");
    id.uri_sans.clear();
    assert_eq!(id.stable_id(), "CN=svc");
}

#[test]
fn stable_id_is_empty_without_a_certificate() {
    let id = MtlsIdentity {
        presented: false,
        subject: "CN=svc".to_owned(),
        uri_sans: vec!["spiffe://td/svc".to_owned()],
    };
    assert_eq!(id.stable_id(), "");
}

#[test]
fn json_response_has_its_content_type() {
    let r = FilterResponse::json(418, b"{}".to_vec());
    assert_eq!(r.status, 418);
    assert_eq!(
        r.headers,
        vec![("content-type".to_owned(), "application/json".to_owned())]
    );
    assert_eq!(r.body, b"{}");
}

#[test]
fn copies_are_equal() {
    let mut r = req("/a?b");
    r.body = b"body".to_vec();
    r.identity.presented = true;
    r.identity.uri_sans.push("u".to_owned());
    let c = r.copy();
    assert_eq!(c.path_and_query, r.path_and_query);
    assert_eq!(c.headers, r.headers);
    assert_eq!(c.body, r.body);
    assert_eq!(c.identity, r.identity);
}

#[test]
fn extracts_the_trace_id() {
    assert_eq!(trace_id_of(TP), Some("4bf92f3577b34da6a3ce929d0e0e4736"));
}

#[test]
fn rejects_malformed_or_all_zero() {
    assert_eq!(trace_id_of(""), None);
    assert_eq!(trace_id_of("00-tooshort-00f067aa0ba902b7-01"), None);
    // The all-zero trace-id is the invalid sentinel.
    assert_eq!(
        trace_id_of("00-00000000000000000000000000000000-00f067aa0ba902b7-01"),
        None
    );
    // A three-field header is not W3C traceparent.
    assert_eq!(trace_id_of("00-4bf92f3577b34da6a3ce929d0e0e4736-01"), None);
}

#[test]
fn trace_ids_are_lowercase_and_of_four_fields() {
    assert_eq!(
        trace_id_of("00-4BF92F3577B34DA6A3CE929D0E0E4736-00f067aa0ba902b7-01"),
        None
    );
    assert_eq!(
        trace_id_of("00-4bf92f3577b34da6a3ce929d0e0e4736-00f067aa0ba902b7-01-x"),
        None
    );
    assert_eq!(
        trace_id_of("00-4bf92f3577b34da6a3ce929d0e0e473g-00f067aa0ba902b7-01"),
        None
    );
}

#[test]
fn request_carries_its_trace_id() {
    let mut r = req("/");
    assert_eq!(r.trace_id(), None);
    r.headers.push(("TraceParent".to_owned(), TP.to_owned()));
    assert_eq!(r.trace_id(), Some("4bf92f3577b34da6a3ce929d0e0e4736"));
}

#[test]
fn empty_header_is_not_presented() {
    assert_eq!(MtlsIdentity::from_xfcc(""), MtlsIdentity::default());
    assert_eq!(MtlsIdentity::from_xfcc("   "), MtlsIdentity::default());
}

#[test]
fn parses_uri_san_and_subject() {
    let id = MtlsIdentity::from_xfcc(
        r#"By=spiffe://td/ingress;Hash=abc123;Subject="CN=svc,O=org";URI=spiffe://td/svc"#,
    );
    assert!(id.presented);
    assert_eq!(id.subject, "CN=svc,O=org");
    assert_eq!(id.uri_sans, vec!["spiffe://td/svc".to_owned()]);
    // The SPIFFE URI SAN is the stable principal.
    assert_eq!(id.stable_id(), "spiffe://td/svc");
}

#[test]
fn quoted_subject_with_commas_is_not_split() {
    let id = MtlsIdentity::from_xfcc(r#"Subject="CN=a,OU=b,O=c";Hash=x"#);
    assert_eq!(id.subject, "CN=a,OU=b,O=c");
}

#[test]
fn reads_only_the_peer_cert_from_a_chain() {
    // Two elements (peer, issuer); only the peer's identity is taken.
    let id = MtlsIdentity::from_xfcc(
        r#"Subject="CN=peer";URI=spiffe://td/peer,Subject="CN=issuer";URI=spiffe://td/issuer"#,
    );
    assert_eq!(id.subject, "CN=peer");
    assert_eq!(id.uri_sans, vec!["spiffe://td/peer".to_owned()]);
}

#[test]
fn subject_only_falls_back_to_dn_principal() {
    let id = MtlsIdentity::from_xfcc(r#"Hash=abc;Subject="CN=svc""#);
    assert!(id.presented);
    assert!(id.uri_sans.is_empty());
    assert_eq!(id.stable_id(), "CN=svc");
}

#[test]
fn unknown_keys_and_missing_equals_are_skipped() {
    let id = MtlsIdentity::from_xfcc("Hash=abc;garbage;DNS=svc.local;URI=spiffe://td/svc");
    assert_eq!(id.uri_sans, vec!["spiffe://td/svc".to_owned()]);
    assert!(id.subject.is_empty());
}

#[test]
fn quoted_values_are_unescaped_and_bare_ones_are_not() {
    let id = MtlsIdentity::from_xfcc(r#"Subject="CN=\"a\\b\"";URI=x\y"#);
    assert_eq!(id.subject, r#"CN="a\b""#);
    assert_eq!(id.uri_sans, vec![r"x\y".to_owned()]);
}

#[test]
fn uris_repeat_in_order_and_empty_ones_are_dropped() {
    let id = MtlsIdentity::from_xfcc("uri=a;URI=;Uri= b \u{2003};subject=s;SUBJECT=t");
    assert_eq!(id.uri_sans, vec!["a".to_owned(), "b".to_owned()]);
    // The last subject counts.
    assert_eq!(id.subject, "t");
}

#[test]
fn replaced_headers_are_the_only_ones_of_their_name() {
    let pair = |k: &str, v: &str| (k.to_owned(), v.to_owned());
    let headers = [pair("X-T", "a"), pair("other", "b"), pair("x-t", "c")];
    let replaced = replace_header(&headers, "x-T", "new".to_owned());
    assert_eq!(replaced, vec![pair("other", "b"), pair("x-T", "new")]);
    assert_eq!(find_header(&replaced, "X-t"), Some("new"));
}
