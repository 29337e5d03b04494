use evoxy::abi::{FilterRequest, HttpVersion, MtlsIdentity};
use evoxy::adapter::{AdaptError, Protocol, RequestParts, ANONYMOUS};
use evoxy::classify::{classify, EndpointKind, HttpMethod};

fn base(method: &str, path: &str) -> FilterRequest {
    FilterRequest {
        method: method.to_owned(),
        path_and_query: path.to_owned(),
        authority: "os.local".to_owned(),
        version: HttpVersion::Http2,
        headers: vec![("content-type".to_owned(), "application/json".to_owned())],
        body: b"{}".to_vec(),
        identity: MtlsIdentity::default(),
    }
}

#[test]
fn builds_ctx_that_matches_the_request() {
    let req = base("POST", "/orders/_search?routing=eu");
    let parts = RequestParts::from_filter(&req, "req-9").unwrap();
    let ctx = parts.ctx();
    assert_eq!(ctx.endpoint(), EndpointKind::Search);
    assert_eq!(ctx.logical_index(), "orders");
    assert_eq!(ctx.method(), HttpMethod::Post);
    assert_eq!(ctx.protocol(), Protocol::Http2);
    assert_eq!(ctx.query(), Some("routing=eu"));
    assert_eq!(ctx.path(), "/orders/_search");
    assert_eq!(ctx.request_id(), "req-9");
    assert_eq!(ctx.body(), b"{}");
}

#[test]
fn principal_from_mtls_uri_san() {
    let mut req = base("GET", "/orders/_doc/1");
    req.identity = MtlsIdentity {
        presented: true,
        subject: "CN=ignored".to_owned(),
        uri_sans: vec!["spiffe://td/ingest".to_owned()],
    };
    let parts = RequestParts::from_filter(&req, "r").unwrap();
    assert_eq!(parts.ctx().principal_id(), "spiffe://td/ingest");
}

#[test]
fn anonymous_when_no_cert_presented() {
    let req = base("GET", "/orders/_doc/1");
    let parts = RequestParts::from_filter(&req, "r").unwrap();
    assert_eq!(parts.ctx().principal_id(), ANONYMOUS);
}

#[test]
fn anonymous_when_the_cert_names_nobody() {
    let mut req = base("GET", "/orders/_doc/1");
    req.identity.presented = true;
    let parts = RequestParts::from_filter(&req, "r").unwrap();
    assert_eq!(parts.ctx().principal_id(), "anonymous");
}

#[test]
fn grpc_content_type_overrides_version() {
    let mut req = base("POST", "/orders/_search");
    req.headers[0].1 = "application/grpc+proto".to_owned();
    let parts = RequestParts::from_filter(&req, "r").unwrap();
    assert_eq!(parts.ctx().protocol(), Protocol::Grpc);
}

#[test]
fn http11_is_kept() {
    let mut req = base("POST", "/orders/_search");
    req.version = HttpVersion::Http11;
    let parts = RequestParts::from_filter(&req, "r").unwrap();
    assert_eq!(parts.ctx().protocol(), Protocol::Http1);
    assert_eq!(parts.endpoint(), EndpointKind::Search);
    assert_eq!(parts.ctx().doc_id(), None);
    assert_eq!(parts.ctx().header("Content-type"), Some("application/json"));
    assert_eq!(parts.ctx().headers().len(), 1);
}

#[test]
fn unsupported_method_is_rejected() {
    let req = base("PATCH", "/orders/_doc/1");
    assert_eq!(
        RequestParts::from_filter(&req, "r").unwrap_err(),
        AdaptError::UnsupportedMethod("PATCH".to_owned())
    );
}

#[test]
fn adapt_error_has_a_message() {
    assert_eq!(
        AdaptError::UnsupportedMethod("get".to_owned()).message(),
        "unsupported HTTP method: get"
    );
}

#[test]
fn every_handled_method_is_mapped() {
    for (name, method) in [
        ("GET", HttpMethod::Get),
        ("PUT", HttpMethod::Put),
        ("POST", HttpMethod::Post),
        ("DELETE", HttpMethod::Delete),
        ("HEAD", HttpMethod::Head),
    ] {
        let parts = RequestParts::from_filter(&base(name, "/"), "").unwrap();
        assert_eq!(parts.ctx().method(), method);
    }
}

#[test]
fn ingest_by_id_is_put() {
    let c = classify(HttpMethod::Put, "/orders/_doc/42");
    assert_eq!(c.logical_index, "orders");
    assert_eq!(c.endpoint, EndpointKind::IngestDoc);
    assert_eq!(c.doc_id.as_deref(), Some("42"));
}

#[test]
fn get_by_id_vs_delete_by_id() {
    assert_eq!(
        classify(HttpMethod::Get, "/orders/_doc/42").endpoint,
        EndpointKind::GetById
    );
    assert_eq!(
        classify(HttpMethod::Delete, "/orders/_doc/42").endpoint,
        EndpointKind::DeleteById
    );
}

#[test]
fn create_and_update_are_ingest_regardless_of_method() {
    assert_eq!(
        classify(HttpMethod::Put, "/o/_create/1").endpoint,
        EndpointKind::IngestDoc
    );
    assert_eq!(
        classify(HttpMethod::Post, "/o/_update/1").endpoint,
        EndpointKind::IngestDoc
    );
    assert_eq!(
        classify(HttpMethod::Get, "/o/_update/1").endpoint,
        EndpointKind::IngestDoc
    );
}

#[test]
fn index_scoped_reads_and_bulk() {
    assert_eq!(
        classify(HttpMethod::Post, "/orders/_search").endpoint,
        EndpointKind::Search
    );
    assert_eq!(
        classify(HttpMethod::Get, "/orders/_count").endpoint,
        EndpointKind::Count
    );
    assert_eq!(
        classify(HttpMethod::Post, "/orders/_bulk").endpoint,
        EndpointKind::IngestBulk
    );
    assert_eq!(
        classify(HttpMethod::Post, "/orders/_mget").endpoint,
        EndpointKind::MultiGet
    );
    assert_eq!(
        classify(HttpMethod::Post, "/orders/_msearch").endpoint,
        EndpointKind::MultiSearch
    );
}

#[test]
fn cluster_level_endpoints_have_no_index() {
    let c = classify(HttpMethod::Post, "/_bulk");
    assert_eq!(c.logical_index, "");
    assert_eq!(c.endpoint, EndpointKind::IngestBulk);
    assert_eq!(
        classify(HttpMethod::Post, "/_msearch").endpoint,
        EndpointKind::MultiSearch
    );
}

#[test]
fn scroll_and_pit_are_cursor() {
    assert_eq!(
        classify(HttpMethod::Get, "/_search/scroll").endpoint,
        EndpointKind::Cursor
    );
    assert_eq!(
        classify(HttpMethod::Post, "/orders/_pit").endpoint,
        EndpointKind::Cursor
    );
}

#[test]
fn admin_and_unknown() {
    assert_eq!(
        classify(HttpMethod::Get, "/_cat/indices").endpoint,
        EndpointKind::Admin
    );
    assert_eq!(
        classify(HttpMethod::Get, "/orders").endpoint,
        EndpointKind::Unknown
    );
    assert_eq!(
        classify(HttpMethod::Get, "/").endpoint,
        EndpointKind::Unknown
    );
}

#[test]
fn delete_by_query_classifies() {
    assert_eq!(
        classify(HttpMethod::Post, "/orders/_delete_by_query").endpoint,
        EndpointKind::DeleteByQuery
    );
}

#[test]
fn slashes_around_and_between_segments_do_not_count() {
    let plain = classify(HttpMethod::Get, "/orders/_doc/42");
    for path in ["orders/_doc/42", "//orders///_doc/42/", "/orders/_doc/42//"] {
        assert_eq!(classify(HttpMethod::Get, path), plain);
    }
}

#[test]
fn only_documents_have_an_id() {
    assert_eq!(
        classify(HttpMethod::Post, "/orders/_search/42").doc_id,
        None
    );
    assert_eq!(classify(HttpMethod::Post, "/orders/_doc").doc_id, None);
    let c = classify(HttpMethod::Get, "/orders/_doc/42/more");
    assert_eq!(c.doc_id.as_deref(), Some("42"));
    // Only the very first path of a scroll is a cursor of the cluster.
    let c = classify(HttpMethod::Get, "/_search/other");
    assert_eq!(c.endpoint, EndpointKind::Unknown);
    assert_eq!(c.logical_index, "_search");
}

#[test]
fn endpoint_names_and_writes() {
    assert_eq!(EndpointKind::IngestDoc.as_str(), "IngestDoc");
    assert_eq!(EndpointKind::Unknown.as_str(), "Unknown");
    assert!(EndpointKind::DeleteById.is_write());
    assert!(!EndpointKind::DeleteByQuery.is_write());
    // The names are those of the engine's own endpoints.
    for kind in [
        EndpointKind::IngestDoc,
        EndpointKind::IngestBulk,
        EndpointKind::Search,
        EndpointKind::MultiSearch,
        EndpointKind::Count,
        EndpointKind::GetById,
        EndpointKind::MultiGet,
        EndpointKind::DeleteById,
        EndpointKind::DeleteByQuery,
        EndpointKind::Cursor,
        EndpointKind::Admin,
        EndpointKind::Unknown,
    ] {
        let engine = osproxy_core::EndpointKind::from_name(kind.as_str()).unwrap();
        assert_eq!(engine.is_write(), kind.is_write());
    }
}
