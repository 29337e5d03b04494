use evoxy::asyncwrite::ImmediateReply;
use evoxy::observe::{
    constant_time_eq, request_from_headers, Directives, Metrics, Observe, ObserveConfig,
    ReservedStep, ADMIN_PATH, EXPLAIN_PREFIX, METRICS_PATH, RESERVED_PREFIX,
};

fn headers(path: &str) -> Vec<(String, String)> {
    vec![
        (":method".to_owned(), "GET".to_owned()),
        (":path".to_owned(), path.to_owned()),
    ]
}

fn done(step: ReservedStep) -> ImmediateReply {
    match step {
        ReservedStep::Done(reply) => Some(reply),
        _ => None,
    }
    .expect("a reply")
}

#[test]
fn snapshot_totals_the_outcomes() {
    let mut m = Metrics::default();
    m.record_routed();
    m.record_routed();
    m.record_rejected();
    let json = String::from_utf8(m.snapshot_json()).unwrap();
    assert_eq!(json, r#"{"requests":3,"routed":2,"rejected":1}"#);
}

#[test]
fn fresh_metrics_are_zero() {
    let json = String::from_utf8(Metrics::default().snapshot_json()).unwrap();
    assert_eq!(json, r#"{"requests":0,"routed":0,"rejected":0}"#);
}

#[test]
fn metrics_snapshot_totals_the_outcomes() {
    let mut m = Metrics::default();
    m.record_routed();
    m.record_routed();
    m.record_rejected();
    assert_eq!(
        String::from_utf8(m.snapshot_json()).unwrap(),
        r#"{"requests":3,"routed":2,"rejected":1}"#
    );
}

#[test]
fn apply_query_flips_emit_decision() {
    let mut d = Directives::default();
    assert!(d.emit_decision());
    assert_eq!(d.apply_query("emit_decision=false&unknown=x"), 1);
    assert!(!d.emit_decision());
    assert_eq!(
        String::from_utf8(d.snapshot_json()).unwrap(),
        r#"{"emit_decision":false}"#
    );
}

#[test]
fn apply_query_ignores_unknown_and_malformed() {
    let mut d = Directives::default();
    assert_eq!(d.apply_query("emit_decision=maybe&other=1"), 0);
    assert!(d.emit_decision()); // unchanged
}

#[test]
fn apply_query_flips_and_ignores_unknown() {
    let mut d = Directives::default();
    assert!(d.emit_decision());
    assert_eq!(d.apply_query("emit_decision=false&unknown=x"), 1);
    assert!(!d.emit_decision());
    assert_eq!(d.apply_query("emit_decision=maybe"), 0);
    assert!(!d.emit_decision());
}

#[test]
fn the_last_setting_counts() {
    let mut d = Directives::new(false);
    assert_eq!(d.apply_query("emit_decision=0&emit_decision=1"), 2);
    assert!(d.emit_decision());
    assert_eq!(d.apply_query("emit_decision=true=x&emit_decision"), 0);
    assert!(d.emit_decision());
}

#[test]
fn directives_constant_time_eq_matches_only_equal() {
    assert!(constant_time_eq(b"secret", b"secret"));
    assert!(!constant_time_eq(b"secret", b"secrez"));
    assert!(!constant_time_eq(b"secret", b"secre"));
}

#[test]
fn observe_tests_constant_time_eq_matches_only_equal() {
    assert!(constant_time_eq(b"secret", b"secret"));
    assert!(!constant_time_eq(b"secret", b"secrez"));
    assert!(!constant_time_eq(b"secret", b"secre"));
}

#[test]
fn observe_config_reads_reserved_keys_and_ignores_the_rest() {
    // The tenancy keys share the blob and are ignored here.
    let cfg = ObserveConfig::from_json(
        r#"{"cluster":"os","shared_index":"s","admin_token":"s3cret","emit_decision":false}"#,
    );
    assert_eq!(cfg.admin_token.as_deref(), Some("s3cret"));
    assert!(!cfg.emit_decision);

    let bare = ObserveConfig::from_json(r#"{"cluster":"os"}"#);
    assert!(bare.admin_token.is_none());
    assert!(bare.emit_decision, "decision header defaults on");
}

#[test]
fn observe_config_of_no_json_is_the_default() {
    let cfg = ObserveConfig::from_json("not json");
    assert!(cfg.admin_token.is_none());
    assert!(cfg.emit_decision);
    let cfg = ObserveConfig::from_json(r#"{"admin_token":7,"emit_decision":"no"}"#);
    assert!(cfg.admin_token.is_none());
    assert!(cfg.emit_decision);
}

#[test]
fn reserved_paths_share_the_one_namespace() {
    assert!(METRICS_PATH.starts_with(RESERVED_PREFIX));
    assert!(ADMIN_PATH.starts_with(RESERVED_PREFIX));
    assert!(EXPLAIN_PREFIX.starts_with(RESERVED_PREFIX));
}

#[test]
fn metrics_path_is_answered_shape_only() {
    let mut observe = Observe::default();
    observe.record_routed();
    let reply = done(observe.reserved_reply(&headers(METRICS_PATH)));
    assert_eq!(reply.status, 200);
    assert_eq!(
        String::from_utf8(reply.body).unwrap(),
        r#"{"requests":1,"routed":1,"rejected":0}"#
    );
    // The query makes no difference to a reserved path.
    let reply = done(observe.reserved_reply(&headers("/_evoxy/metrics?x=1")));
    assert_eq!(reply.status, 200);
}

#[test]
fn explain_path_names_its_target() {
    let mut observe = Observe::default();
    let step = observe.reserved_reply(&headers("/_evoxy/explain/orders/_search?q=1"));
    let req = match step {
        ReservedStep::Explain(req) => Some(req),
        _ => None,
    }
    .expect("an explain request");
    assert_eq!(req.path_and_query, "/orders/_search");
    assert_eq!(req.method, "GET");
    assert!(matches!(
        observe.reserved_reply(&headers("/_evoxy/explain")),
        ReservedStep::NotReserved
    ));
    assert!(matches!(
        observe.reserved_reply(&headers("/_evoxy/explainer/x")),
        ReservedStep::NotReserved
    ));
}

#[test]
fn a_normal_path_is_not_reserved() {
    let mut observe = Observe::default();
    assert!(matches!(
        observe.reserved_reply(&headers("/orders/_doc/1")),
        ReservedStep::NotReserved
    ));
}

#[test]
fn unknown_reserved_prefix_path_is_not_answered() {
    let mut observe = Observe::default();
    assert!(matches!(
        observe.reserved_reply(&headers("/_evoxy/nope")),
        ReservedStep::NotReserved
    ));
    assert!(matches!(
        observe.reserved_reply(&[]),
        ReservedStep::NotReserved
    ));
}

fn admin(path: &str, auth: Option<&str>) -> Vec<(String, String)> {
    let mut h = vec![
        (":method".to_owned(), "POST".to_owned()),
        (":path".to_owned(), path.to_owned()),
    ];
    if let Some(a) = auth {
        h.push(("Authorization".to_owned(), a.to_owned()));
    }
    h
}

#[test]
fn admin_plane_is_token_gated_and_flips_live() {
    let mut observe = Observe::from_config(&ObserveConfig {
        admin_token: Some("s3cret".to_owned()),
        emit_decision: true,
    });
    let path = format!("{ADMIN_PATH}?emit_decision=false");
    for auth in [
        None,
        Some("Bearer wrong"),
        Some("Basic s3cret"),
        Some("Bearers3cret"),
    ] {
        let reply = done(observe.reserved_reply(&admin(&path, auth)));
        assert_eq!(reply.status, 403);
        assert_eq!(reply.body, br#"{"error":"unauthorized"}"#);
        assert!(observe.decision_header(&headers("/x")).is_some());
    }
    let reply = done(observe.reserved_reply(&admin(&path, Some("bearer  s3cret "))));
    assert_eq!(reply.status, 200);
    assert_eq!(
        String::from_utf8(reply.body).unwrap(),
        r#"{"emit_decision":false}"#
    );
    assert!(observe.decision_header(&headers("/x")).is_none());
}

#[test]
fn admin_plane_fails_closed_without_a_configured_token() {
    let mut observe = Observe::default();
    let reply = done(observe.reserved_reply(&admin(ADMIN_PATH, Some("Bearer anything"))));
    assert_eq!(reply.status, 403);
}

#[test]
fn with_admin_token_enables_the_plane() {
    let mut observe = Observe::default().with_admin_token("s3cret");
    let reply = done(observe.reserved_reply(&admin(ADMIN_PATH, Some("Bearer s3cret"))));
    assert_eq!(reply.status, 200);
}

#[test]
fn decision_header_is_gated_by_the_directive() {
    let observe = Observe::default();
    assert!(observe.decision_header(&headers("/orders/_doc/1")).is_some());
    let silenced = Observe::from_config(&ObserveConfig {
        admin_token: None,
        emit_decision: false,
    });
    assert!(silenced.decision_header(&headers("/orders/_doc/1")).is_none());
}

#[test]
fn request_is_assembled_from_its_headers() {
    let h = vec![
        (":METHOD".to_owned(), "PUT".to_owned()),
        (":path".to_owned(), "/a?b".to_owned()),
        (":authority".to_owned(), "os".to_owned()),
        (
            "x-forwarded-client-cert".to_owned(),
            "URI=spiffe://td/acme".to_owned(),
        ),
    ];
    let req = request_from_headers(&h, None, b"x".to_vec());
    assert_eq!(req.method, "PUT");
    assert_eq!(req.path_and_query, "/a?b");
    assert_eq!(req.authority, "os");
    assert_eq!(req.headers, h);
    assert_eq!(req.body, b"x");
    assert_eq!(req.identity.stable_id(), "spiffe://td/acme");
    let other = request_from_headers(&h, Some("/c"), Vec::new());
    assert_eq!(other.path_and_query, "/c");
    let none = request_from_headers(&[], None, Vec::new());
    assert_eq!(none.method, "");
    assert!(!none.identity.presented);
}

#[test]
fn an_explained_request_has_its_target_everywhere() {
    let all = headers("/_evoxy/explain/orders/_search");
    let req = request_from_headers(&all, Some("/orders/_search"), Vec::new());
    assert_eq!(req.path_and_query, "/orders/_search");
    assert_eq!(req.header(":path"), Some("/orders/_search"));
    assert_eq!(req.header(":method"), Some("GET"));
    assert_eq!(
        request_from_headers(&all, None, Vec::new()).headers,
        all
    );
}
