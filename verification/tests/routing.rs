//! Requests through the real engine: the tenancy is resolved by the engine's own
//! router, and everything else is the library.
use evoxy::abi::{FilterRequest, HttpVersion, MtlsIdentity};
use evoxy::actions::{apply_header_ops, Effect, EnvoyActions, FilterDecision};
use evoxy::adapter::{Protocol, RequestParts};
use evoxy::asyncwrite::{async_acked, AsyncStep, ImmediateReply, ProduceRequest};
use evoxy::classify::{EndpointKind, HttpMethod};
use evoxy::config::FilterConfig;
use evoxy::decision::{
    BodyTransform, DocIdRule, HeaderOp, InjectedField, InjectedValue, MigrationPhase, Resolved,
    RouteDecision, SpiError, Target,
};
use evoxy::demux::{bulk_of_items, mget_of_ids, msearch_of_queries, write_item};
use evoxy::extproc::{
    on_acked, on_answer, on_outcome, process_message, CommonResponse, ProcMessage, ProcResponse,
    ProcStep, RawHeader, StreamState,
};
use evoxy::filter::{configured_filter, ExplainStep, Filter, HandleStep};
use evoxy::observe::{Observe, ObserveConfig, ReservedStep, ADMIN_PATH, METRICS_PATH};
use evoxy::read::{filter_terms, filtered_query, map_id, physical_id};
use evoxy::reference::{Placement, ReferenceTenancy};
use evoxy::response::{
    shape_bulk_response, shape_get_document, shape_get_response, shape_mget_response,
    shape_msearch_response, shape_search_response,
};
use evoxy::rewrite::{BulkAction, BulkItem};
use evoxy::route::{
    explain, forward_document, forward_filtered, on_admitted, on_resolved, prepare, resolve_cluster, resolve_target,
    shape_read_response, start, Forward, PreparedForward, RouteOutcome, RouteStep,
};
use evoxy::transform::{apply, PrepareError, Transformed};
use evoxy::sdk::{serves_filter, SdkActions, SdkCall};
use osproxy_core::{ClusterId, Epoch, FieldName, IndexName, PartitionId, PrincipalId, RequestId};
use osproxy_spi::{BodyDoc, HeaderView, Principal, PrincipalAttr, RequestCtx, TenancySpi};
use osproxy_tenancy::TenancyRouter;
use serde_json::Value;
use std::future::Future;

fn block_on<F: Future>(f: F) -> F::Output {
    tokio::runtime::Builder::new_current_thread()
        .build()
        .unwrap()
        .block_on(f)
}

// ---- the engine's types and the library's ----

fn engine_placement(p: Placement) -> osproxy_spi::Placement {
    match p {
        Placement::DedicatedCluster { cluster } => osproxy_spi::Placement::DedicatedCluster {
            cluster: ClusterId::from(cluster),
        },
        Placement::DedicatedIndex { cluster, index } => osproxy_spi::Placement::DedicatedIndex {
            cluster: ClusterId::from(cluster),
            index: IndexName::from(index),
        },
        Placement::SharedIndex {
            cluster,
            index,
            inject,
        } => osproxy_spi::Placement::SharedIndex {
            cluster: ClusterId::from(cluster),
            index: IndexName::from(index),
            inject: inject.into_iter().map(engine_field).collect(),
        },
    }
}

fn engine_field(f: InjectedField) -> osproxy_spi::InjectedField {
    let value = match f.value {
        InjectedValue::PartitionId => osproxy_spi::InjectedValue::PartitionId,
        InjectedValue::Constant(v) => osproxy_spi::InjectedValue::Constant(v),
        InjectedValue::FromPrincipal(a) => osproxy_spi::InjectedValue::FromPrincipal(a),
        InjectedValue::FromHeader(h) => osproxy_spi::InjectedValue::FromHeader(h),
    };
    osproxy_spi::InjectedField::new(FieldName::from(f.name), value)
}

fn own_field(f: &osproxy_spi::InjectedField) -> InjectedField {
    InjectedField {
        name: f.name.as_str().to_owned(),
        value: match &f.value {
            osproxy_spi::InjectedValue::PartitionId => InjectedValue::PartitionId,
            osproxy_spi::InjectedValue::Constant(v) => InjectedValue::Constant(v.clone()),
            osproxy_spi::InjectedValue::FromPrincipal(a) => {
                InjectedValue::FromPrincipal(a.clone())
            }
            osproxy_spi::InjectedValue::FromHeader(h) => InjectedValue::FromHeader(h.clone()),
        },
    }
}

fn own_rule(r: &osproxy_spi::DocIdRule) -> DocIdRule {
    DocIdRule {
        template: r.template.as_str().to_owned(),
        set_routing: r.set_routing,
    }
}

fn engine_rule(r: DocIdRule) -> osproxy_spi::DocIdRule {
    osproxy_spi::DocIdRule::new(osproxy_spi::IdTemplate::new(r.template)).with_routing(r.set_routing)
}

fn own_resolved(r: osproxy_tenancy::Resolved) -> Resolved {
    Resolved {
        partition: r.partition.as_str().to_owned(),
        decision: RouteDecision {
            target: Target {
                cluster: r.decision.target.cluster.as_str().to_owned(),
                index: r.decision.target.index.as_str().to_owned(),
                endpoint: r.decision.target.endpoint.clone(),
            },
            header_ops: Vec::new(),
            body_transform: match &r.decision.body_transform {
                osproxy_spi::BodyTransform::None => BodyTransform::Unchanged,
                osproxy_spi::BodyTransform::Inject(f) => {
                    BodyTransform::Inject(f.iter().map(own_field).collect())
                }
                osproxy_spi::BodyTransform::ConstructId(r) => {
                    BodyTransform::ConstructId(own_rule(r))
                }
                osproxy_spi::BodyTransform::Both { inject, id } => BodyTransform::Both {
                    inject: inject.iter().map(own_field).collect(),
                    id: own_rule(id),
                },
            },
            epoch: r.decision.epoch.get(),
        },
        migration: match r.migration {
            osproxy_spi::MigrationPhase::Settled => MigrationPhase::Settled,
            osproxy_spi::MigrationPhase::Draining => MigrationPhase::Draining,
            osproxy_spi::MigrationPhase::Cutover => MigrationPhase::Cutover,
        },
    }
}

fn own_error(e: osproxy_spi::SpiError) -> SpiError {
    match e {
        osproxy_spi::SpiError::PartitionUnresolved { .. } => SpiError::PartitionUnresolved,
        osproxy_spi::SpiError::PlacementMissing { .. } => SpiError::PlacementMissing,
        osproxy_spi::SpiError::PlacementBackend { retryable } => {
            SpiError::PlacementBackend { retryable }
        }
        osproxy_spi::SpiError::PrincipalAttrMissing { .. } => SpiError::PrincipalAttrMissing,
        osproxy_spi::SpiError::HeaderMissing { .. } => SpiError::HeaderMissing,
        osproxy_spi::SpiError::IdRuleMissingPartition => SpiError::IdRuleMissingPartition,
        _ => SpiError::Other,
    }
}

fn engine_method(m: HttpMethod) -> osproxy_spi::HttpMethod {
    match m {
        HttpMethod::Get => osproxy_spi::HttpMethod::Get,
        HttpMethod::Put => osproxy_spi::HttpMethod::Put,
        HttpMethod::Post => osproxy_spi::HttpMethod::Post,
        HttpMethod::Delete => osproxy_spi::HttpMethod::Delete,
        HttpMethod::Head => osproxy_spi::HttpMethod::Head,
    }
}

fn engine_protocol(p: Protocol) -> osproxy_spi::Protocol {
    match p {
        Protocol::Http1 => osproxy_spi::Protocol::Http1,
        Protocol::Http2 => osproxy_spi::Protocol::Http2,
        Protocol::Grpc => osproxy_spi::Protocol::Grpc,
    }
}

/// The engine's answer for a request.
fn resolve<T: TenancySpi>(
    router: &TenancyRouter<T>,
    parts: &RequestParts,
) -> Result<Resolved, SpiError> {
    let ctx = parts.ctx();
    let principal = Principal::new(PrincipalId::from(ctx.principal_id()));
    let principal = match ctx.identity() {
        Some(_) => principal.with_attr(PrincipalAttr::new("identified", "true")),
        None => principal,
    };
    let id = RequestId::from(ctx.request_id());
    let engine = RequestCtx::new(
        &principal,
        &id,
        engine_method(ctx.method()),
        osproxy_core::EndpointKind::from_name(ctx.endpoint().as_str()).unwrap(),
        engine_protocol(ctx.protocol()),
        ctx.logical_index(),
        HeaderView::new(ctx.headers()),
        ctx.body(),
    )
    .with_doc_id(ctx.doc_id())
    .with_query(ctx.query())
    .with_path(ctx.path());
    block_on(router.resolve(&engine))
        .map(own_resolved)
        .map_err(own_error)
}

/// Routes a request, asking what the steps ask for.
fn outcome<T: TenancySpi>(
    router: &TenancyRouter<T>,
    parts: &RequestParts,
    gated: bool,
) -> RouteOutcome {
    let kind = parts.endpoint();
    let mut step = start(kind);
    loop {
        step = match step {
            RouteStep::Resolve => on_resolved(kind, gated, resolve(router, parts)),
            RouteStep::Admit(r) => {
                let admitted = block_on(router.admit_write(
                    &PartitionId::from(r.partition.as_str()),
                    Epoch::new(r.decision.epoch),
                ));
                RouteStep::Done(on_admitted(kind, r, admitted))
            }
            RouteStep::Done(outcome) => return outcome,
        };
    }
}

fn prepared<T: TenancySpi>(router: &TenancyRouter<T>, req: &FilterRequest) -> Forward {
    let parts = RequestParts::from_filter(req, "r").unwrap();
    prepare(&parts.ctx(), &outcome(router, &parts, true))
}

fn upstream(forward: Forward) -> PreparedForward {
    match forward {
        Forward::Upstream(prepared) => Some(prepared),
        Forward::Immediate(_) => None,
    }
    .expect("expected an Upstream forward")
}

fn immediate(forward: Forward) -> (u16, Value) {
    match forward {
        Forward::Immediate(resp) => {
            let body = serde_json::from_slice(&resp.body).expect("json error body");
            Some((resp.status, body))
        }
        Forward::Upstream(_) => None,
    }
    .expect("expected an Immediate forward")
}

fn text(s: &str) -> Value {
    Value::String(s.to_owned())
}

fn parsed(bytes: &[u8]) -> Value {
    serde_json::from_slice(bytes).unwrap()
}

// ---- a fixed placement ----

struct StubTenancy {
    placement: Placement,
    id_rule: Option<DocIdRule>,
    admit_writes: bool,
}

impl TenancySpi for StubTenancy {
    fn resolve_partition(
        &self,
        ctx: &RequestCtx<'_>,
        _body: BodyDoc<'_>,
    ) -> Result<PartitionId, osproxy_spi::SpiError> {
        ctx.headers()
            .get("x-tenant")
            .map(PartitionId::from)
            .ok_or(osproxy_spi::SpiError::PartitionUnresolved { tried: Vec::new() })
    }

    fn doc_id_rule(&self) -> Option<osproxy_spi::DocIdRule> {
        self.id_rule.clone().map(engine_rule)
    }

    fn injected_fields(&self) -> Vec<osproxy_spi::InjectedField> {
        Vec::new()
    }

    async fn placement_for(
        &self,
        _partition: &PartitionId,
    ) -> Result<osproxy_spi::PlacementAt, osproxy_spi::SpiError> {
        Ok(
            osproxy_spi::PlacementAt::new(engine_placement(self.placement.clone()), Epoch::new(1))
                .with_endpoint("http://os:9200"),
        )
    }

    async fn admit_write(&self, _partition: &PartitionId, _epoch: Epoch) -> bool {
        self.admit_writes
    }
}

fn router(placement: Placement, id_rule: Option<DocIdRule>) -> TenancyRouter<StubTenancy> {
    TenancyRouter::new(StubTenancy {
        placement,
        id_rule,
        admit_writes: true,
    })
}

/// A router whose write gate is closed (the partition is in cutover).
fn blocking_router() -> TenancyRouter<StubTenancy> {
    TenancyRouter::new(StubTenancy {
        placement: dedicated_index(),
        id_rule: None,
        admit_writes: false,
    })
}

fn dedicated_index() -> Placement {
    Placement::DedicatedIndex {
        cluster: "eu-1".to_owned(),
        index: "orders-p1".to_owned(),
    }
}

fn shared_router() -> TenancyRouter<StubTenancy> {
    router(
        Placement::SharedIndex {
            cluster: "eu-1".to_owned(),
            index: "shared".to_owned(),
            inject: vec![InjectedField {
                name: "_tenant".to_owned(),
                value: InjectedValue::PartitionId,
            }],
        },
        Some(DocIdRule {
            template: "{partition}:{body.id}".to_owned(),
            set_routing: true,
        }),
    )
}

fn request(method: &str, path: &str, tenant: Option<&str>, body: &[u8]) -> FilterRequest {
    let mut headers = vec![
        ("content-type".to_owned(), "application/json".to_owned()),
        ("x-request-id".to_owned(), "req-1".to_owned()),
    ];
    if let Some(t) = tenant {
        headers.push(("x-tenant".to_owned(), t.to_owned()));
    }
    FilterRequest {
        method: method.to_owned(),
        path_and_query: path.to_owned(),
        authority: "os.local".to_owned(),
        version: HttpVersion::Http2,
        headers,
        body: body.to_vec(),
        identity: MtlsIdentity::default(),
    }
}

fn shared_resolved() -> Resolved {
    let req = request("GET", "/shared/_doc/1001", Some("acme"), b"");
    let parts = RequestParts::from_filter(&req, "r").unwrap();
    resolve(&shared_router(), &parts).unwrap()
}

// ---- forwarding ----

#[test]
fn dedicated_index_passes_body_and_keeps_client_id() {
    let req = request("PUT", "/orders/_doc/42", Some("acme"), br#"{"k":1}"#);
    let f = upstream(prepared(&router(dedicated_index(), None), &req));
    assert_eq!(f.cluster, "eu-1");
    assert_eq!(f.method, "PUT");
    // logical `orders` → physical `orders-p1`, client id `42` preserved.
    assert_eq!(f.path, "/orders-p1/_doc/42");
    assert_eq!(f.body, br#"{"k":1}"#);
    assert_eq!(f.upstream_host.as_deref(), Some("os:9200"));
    assert!(f.header_ops.is_empty());
}

#[test]
fn shared_index_injects_partition_and_constructs_routed_id() {
    let req = request("POST", "/shared/_doc", Some("acme"), br#"{"id":1001}"#);
    let f = upstream(prepared(&shared_router(), &req));
    assert_eq!(f.cluster, "eu-1");
    assert_eq!(f.method, "PUT");
    // The `:` in the constructed id is percent-encoded in the path.
    assert_eq!(f.path, "/shared/_doc/acme%3A1001?routing=acme");
    let body = parsed(&f.body);
    assert_eq!(body["_tenant"], text("acme"));
    assert_eq!(body["id"], Value::from(1001));
}

#[test]
fn write_without_any_id_is_posted() {
    let req = request("POST", "/orders/_doc", Some("acme"), br#"{"k":1}"#);
    let f = upstream(prepared(&router(dedicated_index(), None), &req));
    assert_eq!(f.method, "POST");
    assert_eq!(f.path, "/orders-p1/_doc");
}

#[test]
fn unresolved_partition_fails_closed_400() {
    let req = request("PUT", "/orders/_doc/42", None, br#"{"k":1}"#);
    let (status, body) = immediate(prepared(&router(dedicated_index(), None), &req));
    assert_eq!(status, 400);
    assert_eq!(body["error"], text("partition_unresolved"));
}

#[test]
fn unsupported_endpoint_is_501_without_resolving() {
    // `_delete_by_query` is not handled yet, so it fails closed without resolving.
    let req = request("POST", "/orders/_delete_by_query", Some("acme"), b"{}");
    let (status, body) = immediate(prepared(&router(dedicated_index(), None), &req));
    assert_eq!(status, 501);
    assert_eq!(body["error"], text("endpoint_not_supported_yet"));
    assert!(matches!(
        start(EndpointKind::DeleteByQuery),
        RouteStep::Done(RouteOutcome::Rejected { status: 501, .. })
    ));
}

#[test]
fn every_resolution_error_has_its_status_and_code() {
    for (err, status, code) in [
        (SpiError::PartitionUnresolved, 400, "partition_unresolved"),
        (SpiError::PrincipalAttrMissing, 400, "principal_attr_missing"),
        (SpiError::HeaderMissing, 400, "header_missing"),
        (
            SpiError::UnsupportedEndpoint(EndpointKind::Admin),
            501,
            "unsupported_endpoint",
        ),
        (SpiError::PlacementMissing, 503, "placement_missing"),
        (
            SpiError::PlacementBackend { retryable: true },
            503,
            "placement_backend",
        ),
        (
            SpiError::IdRuleMissingPartition,
            500,
            "id_rule_missing_partition",
        ),
        (SpiError::Other, 400, "routing_error"),
    ] {
        let step = on_resolved(EndpointKind::Search, true, Err(err));
        let got = match step {
            RouteStep::Done(RouteOutcome::Rejected { status, code }) => Some((status, code)),
            _ => None,
        };
        assert_eq!(got, Some((status, code)));
    }
}

#[test]
fn get_by_id_remaps_index_and_keeps_client_id() {
    let req = request("GET", "/orders/_doc/42", Some("acme"), b"");
    let f = upstream(prepared(&router(dedicated_index(), None), &req));
    assert_eq!(f.cluster, "eu-1");
    assert_eq!(f.method, "GET");
    assert_eq!(f.path, "/orders-p1/_doc/42");
    assert!(f.body.is_empty());
}

#[test]
fn shared_index_get_by_id_constructs_physical_id() {
    let req = request("DELETE", "/shared/_doc/1001", Some("acme"), b"");
    let f = upstream(prepared(&shared_router(), &req));
    assert_eq!(f.method, "DELETE");
    assert_eq!(f.path, "/shared/_doc/acme%3A1001?routing=acme");
}

#[test]
fn slash_bearing_id_is_percent_encoded_in_path() {
    let req = request(
        "POST",
        "/shared/_doc",
        Some("spiffe://td/acme"),
        br#"{"id":1}"#,
    );
    let f = upstream(prepared(&shared_router(), &req));
    assert_eq!(
        f.path,
        "/shared/_doc/spiffe%3A%2F%2Ftd%2Facme%3A1?routing=spiffe%3A%2F%2Ftd%2Facme"
    );
}

#[test]
fn search_dedicated_passes_query_through() {
    let body = br#"{"query":{"match_all":{}}}"#;
    let req = request("POST", "/orders/_search", Some("acme"), body);
    let f = upstream(prepared(&router(dedicated_index(), None), &req));
    assert_eq!(f.method, "POST");
    assert_eq!(f.path, "/orders-p1/_search");
    // No injected isolation fields → the query is unchanged.
    assert_eq!(f.body, body);
}

#[test]
fn search_shared_injects_partition_filter() {
    let req = request(
        "POST",
        "/shared/_search",
        Some("acme"),
        br#"{"query":{"match_all":{}}}"#,
    );
    let f = upstream(prepared(&shared_router(), &req));
    assert_eq!(f.path, "/shared/_search");
    let body = parsed(&f.body);
    let filters = body["query"]["bool"]["filter"].as_array().unwrap();
    assert!(filters.iter().any(|t| t["term"]["_tenant"] == text("acme")));
}

#[test]
fn bodyless_search_is_filtered_too() {
    let req = request("GET", "/shared/_count", Some("acme"), b"");
    let f = upstream(prepared(&shared_router(), &req));
    assert_eq!(f.path, "/shared/_count");
    let body = parsed(&f.body);
    assert_eq!(
        body["query"]["bool"]["filter"][0]["term"]["_tenant"],
        text("acme")
    );
}

#[test]
fn unfilterable_search_fails_closed() {
    let req = request(
        "POST",
        "/shared/_search",
        Some("acme"),
        br#"{"suggest":{"s":{}}}"#,
    );
    let (status, body) = immediate(prepared(&shared_router(), &req));
    assert_eq!(status, 400);
    assert_eq!(body["error"], text("body_rewrite_failed"));
}

#[test]
fn count_routes_to_physical_index() {
    let req = request("GET", "/orders/_count", Some("acme"), b"");
    let f = upstream(prepared(&router(dedicated_index(), None), &req));
    assert_eq!(f.path, "/orders-p1/_count");
}

fn lines(body: &[u8]) -> Vec<Value> {
    String::from_utf8(body.to_vec())
        .unwrap()
        .lines()
        .filter(|l| !l.is_empty())
        .map(|l| serde_json::from_str(l).unwrap())
        .collect()
}

#[test]
fn bulk_rewrites_each_item_for_shared_index() {
    let body =
        b"{\"index\":{}}\n{\"id\":1,\"who\":\"a\"}\n{\"index\":{}}\n{\"id\":2,\"who\":\"b\"}\n";
    let req = request("POST", "/orders/_bulk", Some("acme"), body);
    let f = upstream(prepared(&shared_router(), &req));
    assert_eq!(f.method, "POST");
    assert_eq!(f.path, "/_bulk");
    let lines = lines(&f.body);
    assert_eq!(lines.len(), 4);
    assert_eq!(lines[0]["index"]["_index"], text("shared"));
    assert_eq!(lines[0]["index"]["_id"], text("acme:1"));
    assert_eq!(lines[0]["index"]["routing"], text("acme"));
    assert_eq!(lines[1]["_tenant"], text("acme"));
    assert_eq!(lines[1]["who"], text("a"));
    assert_eq!(lines[2]["index"]["_id"], text("acme:2"));
    assert_eq!(lines[3]["_tenant"], text("acme"));
}

#[test]
fn bulk_of_items_maps_explicit_ids_and_deletes() {
    let resolved = shared_resolved();
    let item = |action, id: Option<&str>, source: Option<&[u8]>| BulkItem {
        action,
        id: id.map(str::to_owned),
        source: source.map(<[u8]>::to_vec),
    };
    let out = bulk_of_items(
        &resolved,
        &vec![
            item(BulkAction::Create, Some("7"), Some(b"{\"id\":9}")),
            item(BulkAction::Update, None, Some(b"{\"id\":8}")),
            item(BulkAction::Delete, Some("3"), None),
            item(BulkAction::Delete, None, None),
        ],
    )
    .unwrap();
    let lines = lines(&out);
    assert_eq!(lines.len(), 6);
    // An explicit id wins over the constructed one.
    assert_eq!(lines[0]["create"]["_id"], text("acme:7"));
    assert_eq!(lines[2]["update"]["_id"], text("acme:8"));
    assert_eq!(lines[4]["delete"]["_id"], text("acme:3"));
    assert!(lines[5]["delete"].get("_id").is_none());
    // One item that cannot be rewritten fails the request.
    let failed = bulk_of_items(
        &resolved,
        &vec![
            item(BulkAction::Index, None, Some(b"{\"id\":1}")),
            item(BulkAction::Index, None, Some(b"{}")),
        ],
    );
    assert!(matches!(failed, Err(PrepareError::Rewrite(_))));
}

#[test]
fn malformed_bulk_fails_closed() {
    let req = request("POST", "/orders/_bulk", Some("acme"), b"{\"nope\":{}}\n");
    let (status, body) = immediate(prepared(&shared_router(), &req));
    assert_eq!(status, 400);
    assert_eq!(body["error"], text("body_rewrite_failed"));
}

#[test]
fn mget_rewrites_each_doc_for_shared_index() {
    let body = br#"{"docs":[{"_id":"1"},{"_id":"2","routing":"ignored"}]}"#;
    let req = request("POST", "/orders/_mget", Some("acme"), body);
    let f = upstream(prepared(&shared_router(), &req));
    assert_eq!(f.method, "POST");
    assert_eq!(f.path, "/_mget");
    let v = parsed(&f.body);
    let docs = v["docs"].as_array().unwrap();
    assert_eq!(docs[0]["_index"], text("shared"));
    assert_eq!(docs[0]["_id"], text("acme:1"));
    assert_eq!(docs[0]["routing"], text("acme"));
    assert_eq!(docs[1]["_id"], text("acme:2"));
}

#[test]
fn mget_of_ids_keeps_their_order() {
    let mut resolved = shared_resolved();
    let ids = vec!["b".to_owned(), "a".to_owned()];
    let v = mget_of_ids(&resolved, &ids).unwrap();
    assert_eq!(v["docs"][0]["_id"], text("acme:b"));
    assert_eq!(v["docs"][1]["_id"], text("acme:a"));
    resolved.decision.body_transform = BodyTransform::Unchanged;
    let v = mget_of_ids(&resolved, &ids).unwrap();
    assert_eq!(v["docs"][0]["_id"], text("b"));
    assert!(v["docs"][0].get("routing").is_none());
    // A template without a key of the document cannot be reversed.
    resolved.decision.body_transform = BodyTransform::ConstructId(DocIdRule {
        template: "{partition}".to_owned(),
        set_routing: false,
    });
    assert!(mget_of_ids(&resolved, &ids).is_err());
    let req = request("POST", "/orders/_mget", Some("acme"), b"[]");
    assert_eq!(immediate(prepared(&shared_router(), &req)).0, 400);
}

#[test]
fn msearch_pins_index_and_injects_filter() {
    let body = "{}\n{\"query\":{\"match_all\":{}}}\n{\"index\":\"other\"}\n{\"query\":{\"term\":{\"k\":1}}}\n";
    let req = request("POST", "/orders/_msearch", Some("acme"), body.as_bytes());
    let f = upstream(prepared(&shared_router(), &req));
    assert_eq!(f.path, "/_msearch");
    let lines = lines(&f.body);
    assert_eq!(lines.len(), 4);
    // Both header lines are pinned to the physical index (even the one that named
    // `other` — a client cannot escape its placement).
    assert_eq!(lines[0]["index"], text("shared"));
    assert_eq!(lines[2]["index"], text("shared"));
    for query in [&lines[1], &lines[3]] {
        let filters = query["query"]["bool"]["filter"].as_array().unwrap();
        assert!(filters.iter().any(|t| t["term"]["_tenant"] == text("acme")));
    }
}

#[test]
fn msearch_of_queries_writes_two_lines_each() {
    let mut resolved = shared_resolved();
    resolved.decision.body_transform = BodyTransform::Unchanged;
    let out = msearch_of_queries(&resolved, &vec![b"{}".to_vec(), b"{ }".to_vec()]).unwrap();
    assert_eq!(
        out,
        b"{\"index\":\"shared\"}\n{}\n{\"index\":\"shared\"}\n{ }\n"
    );
    let req = request("POST", "/orders/_msearch", Some("acme"), b"{}\n");
    assert_eq!(immediate(prepared(&shared_router(), &req)).0, 400);
}

#[test]
fn malformed_body_fails_closed_400() {
    let req = request("PUT", "/orders/_doc/42", Some("acme"), b"not json");
    let (status, body) = immediate(prepared(&router(dedicated_index(), None), &req));
    assert_eq!(status, 400);
    assert_eq!(body["error"], text("body_rewrite_failed"));
}

// ---- transforms ----

fn field(name: &str, value: InjectedValue) -> InjectedField {
    InjectedField {
        name: name.to_owned(),
        value,
    }
}

#[test]
fn transforms_are_applied_to_the_body() {
    let t = apply(b"{\"a\":1}", &BodyTransform::Unchanged, "p").unwrap();
    assert_eq!(t.body, b"{\"a\":1}");
    assert!(t.id.is_none() && t.routing.is_none());
    // An untouched body is still required to be an object.
    assert!(apply(b"[1]", &BodyTransform::Unchanged, "p").is_err());

    let inject = vec![
        field("_t", InjectedValue::PartitionId),
        field("_c", InjectedValue::Constant(Value::from(7))),
    ];
    let t = apply(b"{\"a\":1}", &BodyTransform::Inject(inject.clone()), "p").unwrap();
    assert_eq!(t.body, b"{\"_t\":\"p\",\"_c\":7,\"a\":1}");
    // A client may not bring a reserved field itself.
    assert!(apply(b"{\"_t\":1}", &BodyTransform::Inject(inject), "p").is_err());

    let rule = DocIdRule {
        template: "{partition}:{body.id}".to_owned(),
        set_routing: false,
    };
    let t = apply(b"{\"id\":\"x\"}", &BodyTransform::ConstructId(rule.clone()), "p").unwrap();
    assert_eq!(t.id.as_deref(), Some("p:x"));
    assert_eq!(t.routing, None);
    assert!(apply(b"{}", &BodyTransform::ConstructId(rule), "p").is_err());
}

#[test]
fn unresolved_values_are_an_internal_error() {
    for value in [
        InjectedValue::FromHeader("h".to_owned()),
        InjectedValue::FromPrincipal("a".to_owned()),
    ] {
        let transform = BodyTransform::Inject(vec![field("_t", value)]);
        assert!(matches!(
            apply(b"{}", &transform, "p"),
            Err(PrepareError::UnresolvedInjectedValue)
        ));
        let mut resolved = shared_resolved();
        resolved.decision.body_transform = transform;
        let req = request("POST", "/o/_doc", Some("acme"), b"{}");
        let parts = RequestParts::from_filter(&req, "").unwrap();
        let (status, body) = immediate(prepare(&parts.ctx(), &RouteOutcome::Routed(resolved)));
        assert_eq!(status, 500);
        assert_eq!(body["error"], text("unresolved_injected_value"));
    }
}

#[test]
fn only_partition_fields_are_filtered_on() {
    let transform = BodyTransform::Inject(vec![
        field("_c", InjectedValue::Constant(Value::from(7))),
        field("_t", InjectedValue::PartitionId),
    ]);
    let terms = filter_terms(&transform, "acme");
    assert_eq!(terms, vec![("_t".to_owned(), text("acme"))]);
    assert!(filter_terms(&BodyTransform::Unchanged, "acme").is_empty());
    assert_eq!(filtered_query(b"anything", &Vec::new()).unwrap(), b"anything");
    assert!(filtered_query(b"anything", &terms).is_err());
}

#[test]
fn physical_ids_come_back_as_the_clients() {
    let transform = BodyTransform::ConstructId(DocIdRule {
        template: "doc-{body.k}@{partition}".to_owned(),
        set_routing: true,
    });
    for id in ["7", "", "a@b", "doc-7@p1"] {
        let (physical, routing) = physical_id(&transform, "p1", id).unwrap();
        assert_eq!(physical, format!("doc-{id}@p1"));
        assert_eq!(routing.as_deref(), Some("p1"));
        let mut resolved = shared_resolved();
        resolved.partition = "p1".to_owned();
        resolved.decision.body_transform = transform.clone();
        let upstream = format!(r#"{{"hits":{{"hits":[{{"_id":"{physical}"}}]}}}}"#);
        let shaped = shape_search_response(&resolved, "i", upstream.as_bytes()).unwrap();
        assert_eq!(parsed(&shaped)["hits"]["hits"][0]["_id"], text(id));
    }
    assert_eq!(
        map_id(&BodyTransform::Unchanged, "p1", "x").unwrap(),
        "x"
    );
}

// ---- responses ----

#[test]
fn shape_get_response_strips_injected_field_and_unmaps() {
    let resolved = shared_resolved();
    let upstream = br#"{"_index":"shared","_id":"acme:1001","found":true,
                       "_source":{"_tenant":"acme","k":1}}"#;
    let v = parsed(&shape_get_response(&resolved, "shared", "1001", upstream).unwrap());
    assert_eq!(v["_index"], text("shared"));
    assert_eq!(v["_id"], text("1001")); // logical id restored
    assert!(v["_source"].get("_tenant").is_none()); // isolation field stripped
    assert_eq!(v["_source"]["k"], Value::from(1));
    assert!(shape_get_response(&resolved, "shared", "1001", b"nope").is_err());
}

#[test]
fn shape_get_document_leaves_other_documents_alone() {
    let resolved = shared_resolved();
    let mut list = parsed(b"[1,2]");
    shape_get_document(&resolved, "i", "1", &mut list);
    assert_eq!(list, parsed(b"[1,2]"));
}

#[test]
fn shape_search_response_shapes_each_hit() {
    let upstream = br#"{"took":1,"hits":{"total":{"value":1},"hits":[
        {"_index":"shared","_id":"acme:1001","_source":{"_tenant":"acme","k":1}},
        {"_index":"shared","_id":"other:1","_source":3},
        {"_id":7}, 5
    ]}}"#;
    let v = parsed(&shape_search_response(&shared_resolved(), "orders", upstream).unwrap());
    let hit = &v["hits"]["hits"][0];
    assert_eq!(hit["_index"], text("orders"));
    assert_eq!(hit["_id"], text("1001"));
    assert!(hit["_source"].get("_tenant").is_none());
    assert_eq!(hit["_source"]["k"], Value::from(1));
    // An id that does not fit the template is left as it is.
    assert_eq!(v["hits"]["hits"][1]["_id"], text("other:1"));
    assert_eq!(v["hits"]["hits"][1]["_source"], Value::from(3));
    assert_eq!(v["hits"]["hits"][2]["_id"], Value::from(7));
    assert_eq!(v["hits"]["hits"][3], Value::from(5));
    assert_eq!(v["took"], Value::from(1));
}

#[test]
fn shape_mget_response_unmaps_each_doc() {
    let upstream = br#"{"docs":[
        {"_index":"shared","_id":"acme:1","found":true,"_source":{"_tenant":"acme","k":1}},
        {"_index":"shared","_id":"acme:2","found":false}
    ]}"#;
    let v = parsed(&shape_mget_response(&shared_resolved(), "orders", upstream).unwrap());
    let docs = v["docs"].as_array().unwrap();
    assert_eq!(docs[0]["_index"], text("orders"));
    assert_eq!(docs[0]["_id"], text("1"));
    assert!(docs[0]["_source"].get("_tenant").is_none());
    assert_eq!(docs[1]["_id"], text("2"));
}

#[test]
fn shape_msearch_response_shapes_each_response() {
    let upstream = br#"{"responses":[
        {"hits":{"hits":[{"_index":"shared","_id":"acme:1","_source":{"_tenant":"acme","k":1}}]}},
        {"hits":{"hits":[{"_index":"shared","_id":"acme:9","_source":{"_tenant":"acme","k":9}}]}},
        {"error":"x"}
    ]}"#;
    let v = parsed(&shape_msearch_response(&shared_resolved(), "orders", upstream).unwrap());
    let responses = v["responses"].as_array().unwrap();
    let hit0 = &responses[0]["hits"]["hits"][0];
    assert_eq!(hit0["_index"], text("orders"));
    assert_eq!(hit0["_id"], text("1"));
    assert!(hit0["_source"].get("_tenant").is_none());
    assert_eq!(responses[1]["hits"]["hits"][0]["_id"], text("9"));
    assert_eq!(responses[2]["error"], text("x"));
}

#[test]
fn shape_bulk_response_unmaps_ids_and_index() {
    let upstream = br#"{"took":3,"errors":false,"items":[
        {"index":{"_index":"shared","_id":"acme:1","status":201}},
        {"delete":{"_index":"shared","_id":"acme:2","status":200}}
    ]}"#;
    let v = parsed(&shape_bulk_response(&shared_resolved(), "orders", upstream).unwrap());
    let items = v["items"].as_array().unwrap();
    assert_eq!(items[0]["index"]["_index"], text("orders"));
    assert_eq!(items[0]["index"]["_id"], text("1"));
    assert_eq!(items[0]["index"]["status"], Value::from(201));
    assert_eq!(items[1]["delete"]["_index"], text("orders"));
    assert_eq!(items[1]["delete"]["_id"], text("2"));
}

#[test]
fn responses_that_are_not_reads_are_left_alone() {
    let upstream = br#"{"_id":"acme:1"}"#;
    for (method, path) in [
        ("DELETE", "/orders/_doc/1"),
        ("PUT", "/orders/_doc/1"),
        ("GET", "/orders/_count"),
        ("GET", "/orders/_doc"),
    ] {
        let req = request(method, path, Some("acme"), b"");
        let parts = RequestParts::from_filter(&req, "").unwrap();
        let answer = resolve(&shared_router(), &parts);
        assert!(shape_read_response(&parts.ctx(), &answer, upstream).is_none());
    }
    let req = request("GET", "/orders/_doc/1", None, b"");
    let parts = RequestParts::from_filter(&req, "").unwrap();
    let answer = resolve(&shared_router(), &parts);
    assert!(shape_read_response(&parts.ctx(), &answer, upstream).is_none());
}

// ---- decisions and explanations ----

#[test]
fn decision_shape_is_shape_only() {
    let shape = evoxy::route::decision_shape(&shared_resolved());
    assert_eq!(shape, "transform=both;migration=settled;isolation=on");
    assert!(!shape.contains("acme"));
    assert!(!shape.contains("shared"));
}

#[test]
fn decision_shape_dedicated_has_isolation_off() {
    let mut resolved = shared_resolved();
    resolved.decision.body_transform = BodyTransform::Unchanged;
    assert_eq!(
        evoxy::route::decision_shape(&resolved),
        "transform=none;migration=settled;isolation=off"
    );
    resolved.migration = MigrationPhase::Cutover;
    resolved.decision.body_transform = BodyTransform::Inject(Vec::new());
    assert_eq!(
        evoxy::route::decision_shape(&resolved),
        "transform=inject;migration=cutover;isolation=on"
    );
    resolved.migration = MigrationPhase::Draining;
    resolved.decision.body_transform = BodyTransform::ConstructId(DocIdRule {
        template: String::new(),
        set_routing: false,
    });
    assert_eq!(
        evoxy::route::decision_shape(&resolved),
        "transform=construct_id;migration=draining;isolation=off"
    );
}

fn explained<T: TenancySpi>(router: &TenancyRouter<T>, req: &FilterRequest) -> String {
    let parts = RequestParts::from_filter(req, "").unwrap();
    explain(&parts.ctx(), &outcome(router, &parts, true))
}

#[test]
fn explain_reports_route_with_shape_only_decision() {
    let req = request("POST", "/shared/_search", Some("acme"), b"{}");
    let raw = explained(&shared_router(), &req);
    let json: Value = serde_json::from_str(&raw).unwrap();
    assert_eq!(json["endpoint"], text("Search"));
    assert_eq!(json["outcome"], text("route"));
    assert_eq!(
        json["decision"],
        text("transform=both;migration=settled;isolation=on")
    );
    assert!(!raw.contains("acme") && !raw.contains("shared"));
}

#[test]
fn explain_carries_the_trace_id() {
    let mut req = request("POST", "/shared/_search", Some("acme"), b"{}");
    req.headers.push((
        "traceparent".to_owned(),
        "00-4bf92f3577b34da6a3ce929d0e0e4736-00f067aa0ba902b7-01".to_owned(),
    ));
    let json: Value = serde_json::from_str(&explained(&shared_router(), &req)).unwrap();
    assert_eq!(json["trace"], text("4bf92f3577b34da6a3ce929d0e0e4736"));
}

#[test]
fn explain_reports_reject_for_unresolved_partition() {
    let req = request("PUT", "/orders/_doc/1", None, b"{}");
    let json: Value =
        serde_json::from_str(&explained(&router(dedicated_index(), None), &req)).unwrap();
    assert_eq!(json["outcome"], text("reject"));
    assert_eq!(json["status"], Value::from(400));
    assert_eq!(json["code"], text("partition_unresolved"));
    assert_eq!(
        explained(&blocking_router(), &request("PUT", "/o/_doc/1", Some("a"), b"{}")),
        r#"{"endpoint":"IngestDoc","outcome":"reject","status":409,"code":"stale_epoch"}"#
    );
}

#[test]
fn write_during_cutover_is_rejected_409() {
    let req = request("PUT", "/orders/_doc/42", Some("acme"), br#"{"k":1}"#);
    let (status, body) = immediate(prepared(&blocking_router(), &req));
    assert_eq!(status, 409);
    assert_eq!(body["error"], text("stale_epoch"));
}

#[test]
fn read_during_cutover_is_allowed() {
    let req = request("POST", "/orders/_search", Some("acme"), b"{}");
    let f = upstream(prepared(&blocking_router(), &req));
    assert_eq!(f.path, "/orders-p1/_search");
}

#[test]
fn bulk_during_cutover_is_rejected_409() {
    let body = b"{\"index\":{}}\n{\"id\":1}\n";
    let req = request("POST", "/orders/_bulk", Some("acme"), body);
    assert_eq!(immediate(prepared(&blocking_router(), &req)).0, 409);
    let req = request("DELETE", "/orders/_doc/1", Some("acme"), b"");
    assert_eq!(immediate(prepared(&blocking_router(), &req)).0, 409);
}

#[test]
fn resolve_cluster_returns_target_cluster() {
    let req = request("PUT", "/orders/_doc/42", Some("acme"), b"{}");
    let parts = RequestParts::from_filter(&req, "r").unwrap();
    // The header phase asks for no admission.
    let o = outcome(&blocking_router(), &parts, false);
    assert_eq!(resolve_cluster(&o).unwrap(), "eu-1");
    assert_eq!(
        resolve_target(&o).unwrap(),
        ("eu-1".to_owned(), Some("os:9200".to_owned()))
    );
}

#[test]
fn resolve_cluster_handles_cluster_level_endpoints() {
    let req = request("POST", "/_bulk", Some("acme"), b"");
    let parts = RequestParts::from_filter(&req, "r").unwrap();
    let o = outcome(&router(dedicated_index(), None), &parts, false);
    assert_eq!(resolve_cluster(&o).unwrap(), "eu-1");
}

#[test]
fn resolve_cluster_fails_closed_on_unresolved_partition() {
    let req = request("PUT", "/orders/_doc/42", None, b"{}");
    let parts = RequestParts::from_filter(&req, "r").unwrap();
    let o = outcome(&router(dedicated_index(), None), &parts, false);
    assert_eq!(resolve_cluster(&o).unwrap_err().status, 400);
    assert_eq!(resolve_target(&o).unwrap_err().status, 400);
}

// ---- the filter over the reference tenancy ----

/// The reference tenancy as the engine takes it.
struct Spi(ReferenceTenancy);

impl TenancySpi for Spi {
    fn resolve_partition(
        &self,
        ctx: &RequestCtx<'_>,
        _body: BodyDoc<'_>,
    ) -> Result<PartitionId, osproxy_spi::SpiError> {
        self.0
            .resolve_partition(
                ctx.principal()
                    .attr("identified")
                    .map(|_| ctx.principal_id().as_str()),
                ctx.headers().get(self.0.partition_header()),
            )
            .map(PartitionId::from)
            .map_err(|_| osproxy_spi::SpiError::PartitionUnresolved { tried: Vec::new() })
    }

    fn doc_id_rule(&self) -> Option<osproxy_spi::DocIdRule> {
        self.0.doc_id_rule().map(engine_rule)
    }

    fn injected_fields(&self) -> Vec<osproxy_spi::InjectedField> {
        self.0.injected_fields().into_iter().map(engine_field).collect()
    }

    async fn placement_for(
        &self,
        partition: &PartitionId,
    ) -> Result<osproxy_spi::PlacementAt, osproxy_spi::SpiError> {
        let at = self.0.placement_for(partition.as_str());
        Ok(
            osproxy_spi::PlacementAt::new(engine_placement(at.placement), Epoch::new(at.epoch))
                .with_endpoint(at.endpoint.unwrap())
                .with_phase(match at.phase {
                    MigrationPhase::Settled => osproxy_spi::MigrationPhase::Settled,
                    MigrationPhase::Draining => osproxy_spi::MigrationPhase::Draining,
                    MigrationPhase::Cutover => osproxy_spi::MigrationPhase::Cutover,
                }),
        )
    }

    async fn admit_write(&self, partition: &PartitionId, epoch: Epoch) -> bool {
        self.0.admit_write(partition.as_str(), epoch.get())
    }
}

type Reference = Filter<TenancyRouter<Spi>>;

fn filter() -> Reference {
    Filter::new(TenancyRouter::new(Spi(ReferenceTenancy::new(
        "opensearch",
        "http://os:9200",
        "x-tenant",
    ))))
}

fn reference(config: &str) -> Reference {
    let config = FilterConfig::from_json(config);
    configured_filter(
        TenancyRouter::new(Spi(ReferenceTenancy::from_config(&config))),
        &config,
    )
}

/// Records every effect the filter issues.
#[derive(Default)]
struct FakeActions {
    cluster: Option<String>,
    host: Option<String>,
    method: Option<String>,
    path: Option<String>,
    body: Option<Vec<u8>>,
    set_headers: Vec<(String, String)>,
    removed_headers: Vec<String>,
    local_reply: Option<(u16, Vec<u8>)>,
}

impl EnvoyActions for FakeActions {
    type State = ();
    fn state(&self) {}
    fn after(_: (), _: Effect) {}
    fn set_upstream_cluster(&mut self, cluster: &str) {
        self.cluster = Some(cluster.to_owned());
    }
    fn set_upstream_host(&mut self, host: &str) {
        self.host = Some(host.to_owned());
    }
    fn set_method(&mut self, method: &str) {
        self.method = Some(method.to_owned());
    }
    fn set_path(&mut self, path: &str) {
        self.path = Some(path.to_owned());
    }
    fn set_body(&mut self, body: &[u8]) {
        self.body = Some(body.to_vec());
    }
    fn set_header(&mut self, name: &str, value: &str) {
        self.set_headers.push((name.to_owned(), value.to_owned()));
    }
    fn remove_header(&mut self, name: &str) {
        self.removed_headers.push(name.to_owned());
    }
    fn send_local_reply(&mut self, status: u16, _headers: &[(String, String)], body: &[u8]) {
        self.local_reply = Some((status, body.to_vec()));
    }
}

fn handle(f: &Reference, req: &FilterRequest) -> (FilterDecision, FakeActions) {
    let mut actions = FakeActions::default();
    let decision = match f.handle(req, &mut actions) {
        HandleStep::Done(d) => d,
        HandleStep::Route(parts) => {
            let o = outcome(f.router(), &parts, true);
            f.forward(&parts, &o, &mut actions)
        }
    };
    (decision, actions)
}

fn route_headers(f: &Reference, req: &FilterRequest) -> (FilterDecision, FakeActions) {
    let mut actions = FakeActions::default();
    let decision = match f.route_headers(req, &mut actions) {
        HandleStep::Done(d) => d,
        HandleStep::Route(parts) => {
            let o = outcome(f.router(), &parts, false);
            f.route_target(&o, &mut actions)
        }
    };
    (decision, actions)
}

fn shape_response(f: &Reference, req: &FilterRequest, upstream: &[u8]) -> Option<Vec<u8>> {
    let parts = f.parts(req)?;
    f.shape_response(&parts, &resolve(f.router(), &parts), upstream)
}

#[test]
fn passthrough_index_is_forwarded_unchanged() {
    let f = filter().with_passthrough_indices(vec!["catalog".to_owned()]);
    let req = request("POST", "/catalog/_search", None, br#"{"q":1}"#);
    let (decision, actions) = handle(&f, &req);
    assert_eq!(decision, FilterDecision::ContinueUpstream);
    assert!(actions.cluster.is_none(), "no cluster override");
    assert!(actions.path.is_none(), "path untouched");
    assert!(actions.body.is_none(), "body untouched");
    assert!(actions.local_reply.is_none());
}

#[test]
fn path_partition_moves_the_tenant_from_the_path() {
    let f = filter().with_path_partition_header("x-tenant");
    let req = request("PUT", "/acme/orders/_doc/42", None, br#"{"k":1}"#);
    let (decision, actions) = handle(&f, &req);
    assert_eq!(decision, FilterDecision::ContinueUpstream);
    assert_eq!(actions.cluster.as_deref(), Some("opensearch"));
    assert_eq!(actions.path.as_deref(), Some("/orders/_doc/42"));
}

#[test]
fn write_is_mutated_and_continued_upstream() {
    let req = request("PUT", "/orders/_doc/42", Some("acme"), br#"{"k":1}"#);
    let (decision, actions) = handle(&filter(), &req);
    assert_eq!(decision, FilterDecision::ContinueUpstream);
    assert_eq!(actions.cluster.as_deref(), Some("opensearch"));
    assert_eq!(actions.host.as_deref(), Some("os:9200"));
    assert_eq!(actions.method.as_deref(), Some("PUT"));
    assert_eq!(actions.path.as_deref(), Some("/orders/_doc/42"));
    assert_eq!(actions.body.as_deref(), Some(&b"{\"k\":1}"[..]));
    assert!(actions.local_reply.is_none());
}

#[test]
fn decision_shape_carries_trace_id() {
    let mut req = request("GET", "/orders/_doc/1", Some("acme"), b"");
    req.headers.push((
        "traceparent".to_owned(),
        "00-4bf92f3577b34da6a3ce929d0e0e4736-00f067aa0ba902b7-01".to_owned(),
    ));
    let f = filter();
    let parts = f.parts(&req).unwrap();
    let shape = f
        .decision_shape(&req, &resolve(f.router(), &parts))
        .expect("a decision shape");
    assert_eq!(
        shape,
        "transform=none;migration=settled;isolation=off;trace=4bf92f3577b34da6a3ce929d0e0e4736"
    );
    assert!(f
        .decision_shape(&req, &Err(SpiError::PartitionUnresolved))
        .is_none());
}

#[test]
fn write_without_mtls_is_refused_when_required() {
    let f = filter().with_require_mtls_for_mutation(true);
    let req = request("PUT", "/orders/_doc/42", Some("acme"), br#"{"k":1}"#);
    let (decision, actions) = handle(&f, &req);
    assert_eq!(decision, FilterDecision::StoppedWithLocalReply);
    let (status, body) = actions.local_reply.expect("a local reply");
    assert_eq!(status, 403);
    assert_eq!(body, br#"{"error":"mtls_required_for_mutation"}"#);
    assert!(actions.cluster.is_none());
}

#[test]
fn read_without_mtls_is_allowed_when_required() {
    let f = filter().with_require_mtls_for_mutation(true);
    let req = request("GET", "/orders/_doc/42", Some("acme"), b"");
    let (decision, actions) = handle(&f, &req);
    assert_eq!(decision, FilterDecision::ContinueUpstream);
    assert!(actions.local_reply.is_none());
}

#[test]
fn write_with_mtls_identity_is_allowed_when_required() {
    let f = filter().with_require_mtls_for_mutation(true);
    let mut req = request("PUT", "/orders/_doc/42", Some("acme"), br#"{"k":1}"#);
    req.identity = MtlsIdentity {
        presented: true,
        subject: "CN=svc".to_owned(),
        uri_sans: vec!["spiffe://td/svc".to_owned()],
    };
    let (decision, actions) = handle(&f, &req);
    assert_eq!(decision, FilterDecision::ContinueUpstream);
    assert!(actions.local_reply.is_none());
}

#[test]
fn unresolved_partition_sends_local_reply() {
    let req = request("PUT", "/orders/_doc/42", None, br#"{"k":1}"#);
    let (decision, actions) = handle(&filter(), &req);
    assert_eq!(decision, FilterDecision::StoppedWithLocalReply);
    let (status, body) = actions.local_reply.expect("a local reply");
    assert_eq!(status, 400);
    assert!(actions.cluster.is_none());
    assert_eq!(parsed(&body)["error"], text("partition_unresolved"));
}

#[test]
fn unsupported_method_fails_closed_before_routing() {
    let req = request("PATCH", "/orders/_doc/42", Some("acme"), b"{}");
    let (decision, actions) = handle(&filter(), &req);
    assert_eq!(decision, FilterDecision::StoppedWithLocalReply);
    let (status, body) = actions.local_reply.expect("a local reply");
    assert_eq!(status, 400);
    assert_eq!(parsed(&body)["error"], text("unsupported_method"));
}

#[test]
fn route_headers_sets_only_the_cluster() {
    let req = request("PUT", "/orders/_doc/42", Some("acme"), br#"{"k":1}"#);
    let (decision, actions) = route_headers(&filter(), &req);
    assert_eq!(decision, FilterDecision::ContinueUpstream);
    assert_eq!(actions.cluster.as_deref(), Some("opensearch"));
    assert_eq!(actions.host.as_deref(), Some("os:9200"));
    assert!(actions.path.is_none());
    assert!(actions.body.is_none());
    assert!(actions.local_reply.is_none());
}

#[test]
fn route_headers_fails_closed_when_unresolved() {
    let req = request("PUT", "/orders/_doc/42", None, br#"{"k":1}"#);
    let (decision, actions) = route_headers(&filter(), &req);
    assert_eq!(decision, FilterDecision::StoppedWithLocalReply);
    assert!(actions.cluster.is_none());
    assert_eq!(actions.local_reply.expect("a local reply").0, 400);
}

#[test]
fn route_headers_rejects_unsupported_method() {
    let req = request("PATCH", "/orders/_doc/1", Some("acme"), b"{}");
    let (decision, actions) = route_headers(&filter(), &req);
    assert_eq!(decision, FilterDecision::StoppedWithLocalReply);
    let (status, body) = actions.local_reply.expect("a fail-closed reply");
    assert_eq!(status, 400);
    assert_eq!(body, br#"{"error":"unsupported_method"}"#);
}

#[test]
fn route_headers_passthrough_applies_the_path_rewrite() {
    let f = filter()
        .with_passthrough_indices(vec!["catalog".to_owned()])
        .with_path_partition_header("x-tenant");
    let req = request("GET", "/acme/catalog/_doc/1?pretty=true", None, b"");
    let (decision, actions) = route_headers(&f, &req);
    assert_eq!(decision, FilterDecision::ContinueUpstream);
    assert_eq!(actions.cluster, None, "passthrough resolves no cluster");
    assert_eq!(actions.path.as_deref(), Some("/catalog/_doc/1?pretty=true"));
}

#[test]
fn handle_passthrough_applies_the_path_rewrite() {
    let f = filter()
        .with_passthrough_indices(vec!["catalog".to_owned()])
        .with_path_partition_header("x-tenant");
    let req = request("GET", "/acme/catalog/_doc/1", None, b"");
    let (decision, actions) = handle(&f, &req);
    assert_eq!(decision, FilterDecision::ContinueUpstream);
    assert_eq!(actions.path.as_deref(), Some("/catalog/_doc/1"));
    assert_eq!(actions.body, None, "no transform on passthrough");
}

#[test]
fn reference_filter_wires_passthrough_and_path_source() {
    let f = reference(
        r#"{"cluster":"os","partition_source":"path","partition_header":"x-t","passthrough_indices":["catalog"]}"#,
    );
    let req = request("GET", "/globex/catalog/_doc/1", None, b"");
    let (decision, actions) = handle(&f, &req);
    assert_eq!(decision, FilterDecision::ContinueUpstream);
    assert_eq!(actions.path.as_deref(), Some("/catalog/_doc/1"));
}

#[test]
fn shape_response_restores_the_logical_view() {
    let f = reference(
        r#"{"cluster":"opensearch","shared_index":"orders_shared","inject_field":"_tenant","partition_header":"x-tenant"}"#,
    );
    let req = request("GET", "/orders/_doc/42", Some("acme"), b"");
    let upstream = br#"{"_index":"orders_shared","_id":"acme:42","found":true,"_source":{"_tenant":"acme","k":1}}"#;
    let shaped = shape_response(&f, &req, upstream).expect("a shaped read");
    let text = String::from_utf8(shaped).unwrap();
    assert!(text.contains(r#""_id":"42""#), "{text}");
    assert!(!text.contains("_tenant"), "isolation field stripped: {text}");
    // A delete is not a shapeable read: the upstream body passes unchanged.
    let del = request("DELETE", "/orders/_doc/42", Some("acme"), b"");
    assert!(shape_response(&f, &del, br#"{"result":"deleted"}"#).is_none());
}

#[test]
fn explain_rejects_unsupported_method() {
    let step = filter().explain(&request("PATCH", "/orders/_doc/1", Some("acme"), b"{}"));
    let line = match step {
        ExplainStep::Done(line) => Some(line),
        ExplainStep::Route(_) => None,
    }
    .unwrap();
    assert!(line.contains("unsupported_method"), "{line}");
    assert!(line.contains("400"), "{line}");
}

#[test]
fn is_write_classifies_and_fails_closed() {
    let f = filter();
    assert!(f.is_write(&request("PUT", "/orders/_doc/1", Some("acme"), b"{}")));
    assert!(!f.is_write(&request("GET", "/orders/_doc/1", Some("acme"), b"")));
    assert!(!f.is_write(&request("PATCH", "/orders/_doc/1", Some("acme"), b"{}")));
}

#[test]
fn header_ops_map_onto_actions() {
    let mut actions = FakeActions::default();
    let ops = vec![
        HeaderOp::Add {
            name: "x-a".to_owned(),
            value: "1".to_owned(),
        },
        HeaderOp::Replace {
            name: "x-b".to_owned(),
            value: "2".to_owned(),
        },
        HeaderOp::Remove {
            name: "x-c".to_owned(),
        },
    ];
    apply_header_ops(&ops, &mut actions);
    assert_eq!(
        actions.set_headers,
        vec![
            ("x-a".to_owned(), "1".to_owned()),
            ("x-b".to_owned(), "2".to_owned())
        ]
    );
    assert_eq!(actions.removed_headers, vec!["x-c".to_owned()]);
}

#[test]
fn cutover_through_the_reference_tenancy() {
    let f = Filter::new(TenancyRouter::new(Spi(ReferenceTenancy::new(
        "os",
        "http://os:9200",
        "x-tenant",
    )
    .with_migration("frozen", MigrationPhase::Cutover))));
    let write = request("PUT", "/orders/_doc/1", Some("frozen"), b"{}");
    let (_, actions) = handle(&f, &write);
    assert_eq!(actions.local_reply.unwrap().0, 409);
    let read = request("GET", "/orders/_doc/1", Some("frozen"), b"");
    assert_eq!(handle(&f, &read).0, FilterDecision::ContinueUpstream);
    let other = request("PUT", "/orders/_doc/1", Some("acme"), b"{}");
    assert_eq!(handle(&f, &other).0, FilterDecision::ContinueUpstream);
}

// ---- asynchronous writes ----

fn async_write(
    f: &Reference,
    req: &FilterRequest,
    has_sink: bool,
    ack: bool,
) -> (ImmediateReply, Option<ProduceRequest>) {
    let mut step = f.async_write(req, has_sink);
    loop {
        step = match step {
            AsyncStep::Done(reply) => return (reply, None),
            AsyncStep::Route(parts, capture) => {
                let o = outcome(f.router(), &parts, true);
                f.async_forward(&parts, capture, &o)
            }
            AsyncStep::Produce(p) => return (async_acked(&p, ack), Some(p)),
        };
    }
}

fn dedicated_index_filter() -> Reference {
    reference(
        r#"{"isolation":"dedicated_index","cluster":"opensearch","index_template":"orders-{partition}","partition_header":"x-tenant"}"#,
    )
}

#[test]
fn produces_the_transformed_request_and_returns_202() {
    let req = request("PUT", "/orders/_doc/42", Some("acme"), br#"{"k":1}"#);
    let (reply, produced) = async_write(&dedicated_index_filter(), &req, true, true);
    assert_eq!(reply.status, 202);
    let body = String::from_utf8(reply.body).unwrap();
    assert!(body.contains("\"status\":\"accepted\""), "202 body: {body}");
    assert!(body.contains("\"op_id\":\""), "carries an op_id: {body}");
    let produced = produced.unwrap();
    assert_eq!(produced.path, "/orders-acme/_doc/42");
    assert_eq!(produced.body, br#"{"k":1}"#);
    assert_eq!(
        body,
        format!(
            r#"{{"status":"accepted","op_id":"{}"}}"#,
            evoxy::asyncwrite::op_id(&produced.path, &produced.body)
        )
    );
}

#[test]
fn refuses_503_when_broker_does_not_ack() {
    let req = request("PUT", "/orders/_doc/42", Some("acme"), br#"{"k":1}"#);
    let (reply, _) = async_write(&dedicated_index_filter(), &req, true, false);
    assert_eq!(reply.status, 503);
    assert_eq!(reply.body, br#"{"error":"fanout_unavailable"}"#);
}

#[test]
fn refuses_503_when_no_sink() {
    let req = request("PUT", "/orders/_doc/42", Some("acme"), br#"{"k":1}"#);
    let (reply, produced) = async_write(&dedicated_index_filter(), &req, false, true);
    assert_eq!(reply.status, 503);
    assert_eq!(reply.body, br#"{"error":"async_write_unavailable"}"#);
    assert!(produced.is_none());
}

#[test]
fn rejects_400_on_a_read() {
    let req = request("GET", "/orders/_doc/42", Some("acme"), b"");
    let (reply, produced) = async_write(&dedicated_index_filter(), &req, true, true);
    assert_eq!(reply.status, 400);
    assert_eq!(reply.body, br#"{"error":"async_write_read_unsupported"}"#);
    assert!(produced.is_none(), "nothing produced");
}

#[test]
fn a_fail_closed_transform_is_surfaced_not_accepted() {
    let req = request("PUT", "/orders/_doc/42", None, br#"{"k":1}"#);
    let (reply, produced) = async_write(&dedicated_index_filter(), &req, true, true);
    assert_eq!(reply.status, 400);
    assert!(produced.is_none(), "no produce on reject");
}

#[test]
fn produced_key_is_the_physical_path_with_query() {
    let f = reference(
        r#"{"shared_index":"orders_shared","inject_field":"_t","id_template":"{partition}:{body.id}","partition_header":"x-tenant"}"#,
    );
    let req = request("PUT", "/orders/_doc/7", Some("acme"), br#"{"id":7}"#);
    let (reply, produced) = async_write(&f, &req, true, true);
    assert_eq!(reply.status, 202);
    let produced = produced.unwrap();
    assert_eq!(produced.path, "/orders_shared/_doc/acme%3A7?routing=acme");
    assert!(String::from_utf8_lossy(&produced.body).contains(r#""_t":"acme""#));
}

#[test]
fn an_untransformed_write_keeps_its_query() {
    let f = filter().with_passthrough_indices(vec!["catalog".to_owned()]);
    let req = request("PUT", "/catalog/_doc/7?refresh=true", None, b"{}");
    let (reply, produced) = async_write(&f, &req, true, true);
    assert_eq!(reply.status, 202);
    assert_eq!(produced.unwrap().path, "/catalog/_doc/7?refresh=true");
}

// ---- the external processor ----

fn message(pairs: &[(&str, &str)], end_of_stream: bool) -> ProcMessage {
    ProcMessage::RequestHeaders {
        headers: pairs
            .iter()
            .map(|(k, v)| RawHeader {
                key: (*k).to_owned(),
                value: (*v).to_owned(),
                raw_value: Vec::new(),
            })
            .collect(),
        end_of_stream,
    }
}

/// A broker that acknowledges or not, and what was produced to it.
struct Sink {
    ack: bool,
    acked: Vec<(String, Vec<u8>)>,
}

fn process(
    f: &Reference,
    observe: &mut Observe,
    mut sink: Option<&mut Sink>,
    state: &mut StreamState,
    message: ProcMessage,
) -> ProcResponse {
    let mut step = process_message(f, observe, sink.is_some(), state, message);
    loop {
        step = match step {
            ProcStep::Done(response) => return response,
            ProcStep::Route(parts, work) => {
                let o = outcome(f.router(), &parts, true);
                on_outcome(f, observe, &parts, work, &o)
            }
            ProcStep::Resolve(parts, work) => {
                let answer = resolve(f.router(), &parts);
                return on_answer(f, &parts, &work, &answer);
            }
            ProcStep::Produce(p) => {
                let sink = sink.as_mut().unwrap();
                if sink.ack {
                    sink.acked.push((p.path.clone(), p.body.clone()));
                }
                return on_acked(observe, &p, sink.ack);
            }
        };
    }
}

fn body_common(response: ProcResponse) -> CommonResponse {
    match response {
        ProcResponse::RequestBody(common) => Some(common),
        _ => None,
    }
    .expect("a request body response")
}

fn immediate_parts(response: ProcResponse) -> (u16, String) {
    match response {
        ProcResponse::Immediate(reply) => {
            Some((reply.status, String::from_utf8(reply.body).unwrap()))
        }
        _ => None,
    }
    .expect("an immediate response")
}

fn setting(common: &CommonResponse, key: &str) -> Option<String> {
    common
        .header_mutation
        .as_ref()?
        .set_headers
        .iter()
        .find(|h| h.key.eq_ignore_ascii_case(key))
        .map(|h| String::from_utf8(h.raw_value.clone()).unwrap())
}

const WRITE: [(&str, &str); 3] = [
    (":method", "PUT"),
    (":path", "/orders/_doc/42"),
    ("x-tenant", "acme"),
];

#[test]
fn headers_phase_continues_without_mutation() {
    let mut state = StreamState::default();
    let msg = message(&[(":method", "PUT"), (":path", "/orders/_doc/42")], false);
    let resp = process(&filter(), &mut Observe::default(), None, &mut state, msg);
    assert!(matches!(resp, ProcResponse::RequestHeaders(_)));
    // headers were buffered for the body phase.
    assert!(state.headers.iter().any(|(k, _)| k == ":path"));
}

#[test]
fn body_phase_mutates_route_and_body() {
    let f = filter();
    let mut observe = Observe::default();
    let mut state = StreamState::default();
    let pairs = [WRITE[0], WRITE[1], WRITE[2], ("x-request-id", "req-1")];
    process(&f, &mut observe, None, &mut state, message(&pairs, false));
    let body = ProcMessage::RequestBody(br#"{"k":1}"#.to_vec());
    let common = body_common(process(&f, &mut observe, None, &mut state, body));

    // Cluster header records the routing decision; the body is rewritten.
    assert_eq!(
        setting(&common, "x-evoxy-cluster").as_deref(),
        Some("opensearch")
    );
    assert_eq!(common.body_mutation.as_deref(), Some(&b"{\"k\":1}"[..]));
    assert!(!common.clear_route_cache);
    // The reference tenancy leaves the request line unchanged, so `:method` and
    // `:path` are NOT re-emitted (re-emitting an unchanged `:path` would empty it).
    assert_eq!(setting(&common, ":method"), None);
    assert_eq!(setting(&common, ":path"), None);
}

#[test]
fn a_changed_path_and_body_are_set_and_the_length_is_dropped() {
    let f = dedicated_index_filter();
    let mut observe = Observe::default();
    let mut state = StreamState::default();
    process(&f, &mut observe, None, &mut state, message(&WRITE, false));
    let body = ProcMessage::RequestBody(b"{}".to_vec());
    let common = body_common(process(&f, &mut observe, None, &mut state, body));
    assert_eq!(
        setting(&common, ":path").as_deref(),
        Some("/orders-acme/_doc/42")
    );
    let removed = common.header_mutation.unwrap().remove_headers;
    assert!(removed.iter().any(|h| h == "content-length"));
}

#[test]
fn over_cap_request_body_is_refused_413() {
    let f = filter();
    let mut observe = Observe::default();
    // A tiny cap so a modest body trips it; the brain never runs.
    let mut state = StreamState::new(4);
    let pairs = [
        (":method", "POST"),
        (":path", "/orders/_bulk"),
        ("x-tenant", "acme"),
    ];
    process(&f, &mut observe, None, &mut state, message(&pairs, false));
    let body = ProcMessage::RequestBody(br#"{"k":1}"#.to_vec());
    let resp = process(&f, &mut observe, None, &mut state, body);
    assert_eq!(immediate_parts(resp).0, 413);
}

#[test]
fn body_at_cap_is_allowed() {
    let f = filter();
    let mut observe = Observe::default();
    let body = br#"{"k":1}"#;
    // Cap exactly at the body length: the boundary is inclusive (not refused).
    let mut state = StreamState::new(body.len());
    process(&f, &mut observe, None, &mut state, message(&WRITE, false));
    let body = ProcMessage::RequestBody(body.to_vec());
    let resp = process(&f, &mut observe, None, &mut state, body);
    assert!(matches!(resp, ProcResponse::RequestBody(_)));
}

#[test]
fn metrics_path_is_answered_and_counts_outcomes() {
    let f = filter();
    let mut observe = Observe::default();
    // A routed write, then a rejected one (no tenant) — the counters move.
    let mut s1 = StreamState::default();
    let h1 = [
        (":method", "PUT"),
        (":path", "/orders/_doc/1"),
        ("x-tenant", "acme"),
    ];
    process(&f, &mut observe, None, &mut s1, message(&h1, false));
    let body = ProcMessage::RequestBody(br#"{"k":1}"#.to_vec());
    process(&f, &mut observe, None, &mut s1, body.clone());

    let mut s2 = StreamState::default();
    let h2 = [(":method", "PUT"), (":path", "/orders/_doc/2")];
    process(&f, &mut observe, None, &mut s2, message(&h2, false));
    process(&f, &mut observe, None, &mut s2, body);

    // The reserved path is answered directly with a shape-only snapshot; it is not
    // itself counted.
    let mut s3 = StreamState::default();
    let probe = message(&[(":method", "GET"), (":path", "/_evoxy/metrics")], true);
    let (status, body) = immediate_parts(process(&f, &mut observe, None, &mut s3, probe));
    assert_eq!(status, 200);
    assert_eq!(body, r#"{"requests":2,"routed":1,"rejected":1}"#);
}

#[test]
fn unresolved_partition_yields_immediate_response() {
    let f = filter();
    let mut observe = Observe::default();
    let mut state = StreamState::default();
    let pairs = [(":method", "PUT"), (":path", "/orders/_doc/42")];
    process(&f, &mut observe, None, &mut state, message(&pairs, false));
    let body = ProcMessage::RequestBody(br#"{"k":1}"#.to_vec());
    let resp = process(&f, &mut observe, None, &mut state, body);
    assert_eq!(immediate_parts(resp).0, 400);
}

/// One request on a reserved path, and its immediate `(status, body)`.
fn admin_probe(observe: &mut Observe, path: &str, auth: Option<&str>) -> (u16, String) {
    let mut pairs = vec![(":method", "POST"), (":path", path)];
    if let Some(a) = auth {
        pairs.push(("authorization", a));
    }
    let mut state = StreamState::default();
    let resp = process(&filter(), observe, None, &mut state, message(&pairs, true));
    immediate_parts(resp)
}

fn emits(observe: &Observe) -> bool {
    observe
        .decision_header(&[(":path".to_owned(), "/orders/_doc/1".to_owned())])
        .is_some()
}

#[test]
fn admin_directives_are_token_gated_and_flip_live() {
    // No token configured, or a wrong/absent bearer → fail closed 403, no change.
    let mut observe = Observe::default();
    let (status, _) = admin_probe(&mut observe, ADMIN_PATH, Some("Bearer s3cret"));
    assert_eq!(status, 403);
    let mut observe = observe.with_admin_token("s3cret");
    let (status, _) = admin_probe(&mut observe, ADMIN_PATH, Some("Bearer wrong"));
    assert_eq!(status, 403);
    assert!(emits(&observe), "unchanged by rejected calls");

    // Correct token flips the directive live and echoes the new state.
    let (status, body) = admin_probe(
        &mut observe,
        "/_evoxy/admin/directives?emit_decision=false",
        Some("Bearer s3cret"),
    );
    assert_eq!(status, 200);
    assert_eq!(body, r#"{"emit_decision":false}"#);
    assert!(!emits(&observe), "flipped live");
}

#[test]
fn explain_path_returns_a_dry_run() {
    let mut observe = Observe::default();
    let mut state = StreamState::default();
    let pairs = [
        (":method", "GET"),
        (":path", "/_evoxy/explain/orders/_search"),
        ("x-tenant", "acme"),
    ];
    let f = filter();
    let resp = process(&f, &mut observe, None, &mut state, message(&pairs, true));
    let (status, body) = immediate_parts(resp);
    assert_eq!(status, 200);
    // Shape-only routing dry-run; no forward happened.
    assert_eq!(
        body,
        r#"{"endpoint":"Search","outcome":"route","decision":"transform=none;migration=settled;isolation=off"}"#
    );
    let headers = [(":path".to_owned(), METRICS_PATH.to_owned())];
    let reply = match observe.reserved_reply(&headers) {
        ReservedStep::Done(reply) => Some(reply),
        _ => None,
    }
    .unwrap();
    assert_eq!(reply.body, br#"{"requests":0,"routed":0,"rejected":0}"#);
}

#[test]
fn responses_carry_the_decision_and_are_shaped() {
    let f = reference(
        r#"{"cluster":"os","shared_index":"shared","inject_field":"_tenant","partition_header":"x-tenant"}"#,
    );
    let mut observe = Observe::default();
    let mut state = StreamState::default();
    let pairs = [
        (":method", "GET"),
        (":path", "/orders/_doc/1"),
        ("x-tenant", "acme"),
    ];
    let resp = process(&f, &mut observe, None, &mut state, message(&pairs, true));
    let routed = match resp {
        ProcResponse::RequestHeaders(common) => Some(common),
        _ => None,
    }
    .expect("a request headers response");
    assert_eq!(
        setting(&routed, ":path").as_deref(),
        Some("/shared/_doc/acme%3A1?routing=acme")
    );

    let resp = process(&f, &mut observe, None, &mut state, ProcMessage::ResponseHeaders);
    let common = match resp {
        ProcResponse::ResponseHeaders(common) => Some(common),
        _ => None,
    }
    .unwrap();
    assert_eq!(
        setting(&common, "x-evoxy-decision").as_deref(),
        Some("transform=both;migration=settled;isolation=on")
    );

    let upstream = br#"{"_index":"shared","_id":"acme:1","_source":{"_tenant":"acme","k":1}}"#;
    let msg = ProcMessage::ResponseBody(upstream.to_vec());
    let common = match process(&f, &mut observe, None, &mut state, msg) {
        ProcResponse::ResponseBody(common) => Some(common),
        _ => None,
    }
    .unwrap();
    let v = parsed(&common.body_mutation.unwrap());
    assert_eq!(v["_index"], text("orders"));
    assert_eq!(v["_id"], text("1"));
    assert!(v["_source"].get("_tenant").is_none());

    // The decision header is left out once the directive is off.
    let mut quiet = Observe::from_config(&ObserveConfig {
        admin_token: None,
        emit_decision: false,
    });
    let resp = process(&f, &mut quiet, None, &mut state, ProcMessage::ResponseHeaders);
    assert!(matches!(
        resp,
        ProcResponse::ResponseHeaders(CommonResponse {
            header_mutation: None,
            ..
        })
    ));
}

#[test]
fn header_bytes_are_read_lossily() {
    let mut state = StreamState::default();
    let msg = ProcMessage::RequestHeaders {
        headers: vec![
            RawHeader {
                key: "x-raw".to_owned(),
                value: String::new(),
                raw_value: vec![b'a', 0xff, b'b'],
            },
            RawHeader {
                key: "x-plain".to_owned(),
                value: "kept".to_owned(),
                raw_value: vec![b'r'],
            },
        ],
        end_of_stream: false,
    };
    process(&filter(), &mut Observe::default(), None, &mut state, msg);
    assert_eq!(
        state.headers,
        vec![
            ("x-raw".to_owned(), "a\u{fffd}b".to_owned()),
            ("x-plain".to_owned(), "kept".to_owned())
        ]
    );
}

#[test]
fn other_messages_go_on_unchanged() {
    let mut state = StreamState::default();
    let mut observe = Observe::default();
    let resp = process(&filter(), &mut observe, None, &mut state, ProcMessage::Other);
    let common = body_common(resp);
    assert!(common.header_mutation.is_none() && common.body_mutation.is_none());
}

fn drive_async_write(f: &Reference, mut sink: Option<&mut Sink>) -> (u16, String) {
    let mut observe = Observe::default();
    let mut state = StreamState::default();
    let pairs = [
        (":method", "PUT"),
        (":path", "/orders/_doc/42"),
        ("x-evoxy-write-mode", "async"),
        ("x-tenant", "acme"),
    ];
    let headers = message(&pairs, false);
    process(f, &mut observe, sink.as_mut().map(|s| &mut **s), &mut state, headers);
    let body = ProcMessage::RequestBody(br#"{"k":1}"#.to_vec());
    immediate_parts(process(f, &mut observe, sink, &mut state, body))
}

#[test]
fn async_write_produces_transformed_request_and_returns_202() {
    let mut sink = Sink {
        ack: true,
        acked: Vec::new(),
    };
    let (status, body) = drive_async_write(&dedicated_index_filter(), Some(&mut sink));
    assert_eq!(status, 202, "unexpected status; body: {body}");
    assert!(body.contains("\"status\":\"accepted\""), "202 body: {body}");
    assert!(
        body.contains("\"op_id\":\""),
        "202 body carries an op_id: {body}"
    );
    // The record produced is the *physical* request the filter transformed, not the
    // raw client request — isolation already happened before the produce.
    assert_eq!(sink.acked.len(), 1, "exactly one acked produce");
    let (produced_path, produced_body) = &sink.acked[0];
    assert_ne!(
        produced_path, "/orders/_doc/42",
        "the produced path is the transformed physical path"
    );
    assert!(
        produced_path.contains("orders-acme"),
        "physical path targets the per-tenant index: {produced_path}"
    );
    assert!(!produced_body.is_empty(), "the request body is produced");
}

#[test]
fn async_write_refuses_503_when_broker_does_not_ack() {
    let mut sink = Sink {
        ack: false,
        acked: Vec::new(),
    };
    let (status, body) = drive_async_write(&filter(), Some(&mut sink));
    assert_eq!(status, 503, "refuse, do not send a false 202");
    assert_eq!(body, r#"{"error":"fanout_unavailable"}"#);
}

#[test]
fn async_write_refuses_503_when_no_sink_configured() {
    let (status, body) = drive_async_write(&filter(), None);
    assert_eq!(status, 503, "no downgrade to a silent sync write");
    assert_eq!(body, r#"{"error":"async_write_unavailable"}"#);
}

#[test]
fn async_mode_on_a_read_is_rejected_400() {
    let mut sink = Sink {
        ack: true,
        acked: Vec::new(),
    };
    // A read reaches the brain at the headers phase (end_of_stream, no body).
    let mut state = StreamState::default();
    let pairs = [
        (":method", "GET"),
        (":path", "/orders/_doc/42"),
        ("x-tenant", "acme"),
        ("x-evoxy-write-mode", "async"),
    ];
    let resp = process(
        &filter(),
        &mut Observe::default(),
        Some(&mut sink),
        &mut state,
        message(&pairs, true),
    );
    let (status, body) = immediate_parts(resp);
    assert_eq!(status, 400, "a read cannot be 202-queued");
    assert_eq!(body, r#"{"error":"async_write_read_unsupported"}"#);
}

#[test]
fn sync_write_is_unaffected_by_a_configured_sink() {
    // A normal write (no write-mode header) still forwards upstream even when a sink
    // is configured — async is strictly opt-in per request.
    let f = filter();
    let mut sink = Sink {
        ack: true,
        acked: Vec::new(),
    };
    let mut observe = Observe::default();
    let mut state = StreamState::default();
    let headers = message(&WRITE, false);
    process(&f, &mut observe, Some(&mut sink), &mut state, headers);
    let body = ProcMessage::RequestBody(br#"{"k":1}"#.to_vec());
    let resp = process(&f, &mut observe, Some(&mut sink), &mut state, body);
    // Forwarded upstream: a RequestBody response with mutations, not a 202.
    assert!(matches!(resp, ProcResponse::RequestBody(_)));
    assert!(sink.acked.is_empty());
}

#[test]
fn mtls_principal_names_the_partition() {
    let f = reference(
        r#"{"cluster":"os","shared_index":"shared","partition_source":"principal"}"#,
    );
    let mut observe = Observe::default();
    let mut state = StreamState::default();
    let pairs = [
        (":method", "GET"),
        (":path", "/orders/_doc/1"),
        ("x-tenant", "someone-else"),
        (
            "x-forwarded-client-cert",
            r#"Hash=ab;Subject="CN=svc,O=x";URI=svc-a"#,
        ),
    ];
    let resp = process(&f, &mut observe, None, &mut state, message(&pairs, true));
    let common = match resp {
        ProcResponse::RequestHeaders(common) => Some(common),
        _ => None,
    }
    .expect("a request headers response");
    assert_eq!(
        setting(&common, ":path").as_deref(),
        Some("/shared/_doc/svc-a%3A1?routing=svc-a")
    );
}

// ---- the in-process module's recorder ----

#[test]
fn recorded_effects_are_committed_in_order() {
    let f = dedicated_index_filter();
    let req = request("PUT", "/orders/_doc/42", Some("acme"), b"{ }");
    let mut actions = SdkActions::new(req.body.clone());
    let decision = match f.handle(&req, &mut actions) {
        HandleStep::Done(d) => d,
        HandleStep::Route(parts) => {
            let o = outcome(f.router(), &parts, true);
            f.forward(&parts, &o, &mut actions)
        }
    };
    assert_eq!(decision, FilterDecision::ContinueUpstream);
    let calls = actions.apply();
    // The body is as it came, so it is not replaced.
    assert_eq!(calls.len(), 2);
    assert!(matches!(&calls[0], SdkCall::SetHeader(k, v) if k == ":method" && v == "PUT"));
    assert!(
        matches!(&calls[1], SdkCall::SetHeader(k, v) if k == ":path" && v == "/orders-acme/_doc/42")
    );
}

#[test]
fn header_ops_and_a_changed_body_are_committed() {
    let mut actions = SdkActions::new(b"a".to_vec());
    apply_header_ops(
        &vec![
            HeaderOp::Remove {
                name: "x-c".to_owned(),
            },
            HeaderOp::Add {
                name: "x-a".to_owned(),
                value: "1".to_owned(),
            },
        ],
        &mut actions,
    );
    actions.set_body(b"b");
    let calls = actions.apply();
    assert_eq!(calls.len(), 3);
    assert!(matches!(&calls[0], SdkCall::SetHeader(k, v) if k == "x-a" && v == "1"));
    assert!(matches!(&calls[1], SdkCall::RemoveHeader(k) if k == "x-c"));
    assert!(matches!(&calls[2], SdkCall::ReplaceBody(b) if b == b"b"));
}

#[test]
fn a_reply_is_committed_alone() {
    let f = filter();
    let req = request("PATCH", "/orders/_doc/42", Some("acme"), b"{}");
    let mut actions = SdkActions::new(req.body.clone());
    actions.set_path("/elsewhere");
    assert!(matches!(
        f.handle(&req, &mut actions),
        HandleStep::Done(FilterDecision::StoppedWithLocalReply)
    ));
    let calls = actions.apply();
    assert_eq!(calls.len(), 1);
    assert!(matches!(&calls[0], SdkCall::SendResponse(r) if r.status == 400));
}

#[test]
fn the_module_serves_its_own_name() {
    assert!(serves_filter("evoxy"));
    assert!(serves_filter(""));
    assert!(!serves_filter("other"));
}

// ---- what holds of the whole ----

#[test]
fn what_is_written_is_read_back() {
    let document = br#"{"id":7,"who":"acme","nested":{"_tenant":"mine"}}"#;
    let req = request("POST", "/orders/_doc", Some("acme"), document);
    let f = upstream(prepared(&shared_router(), &req));
    let stored = parsed(&f.body);
    assert_eq!(stored["_tenant"], text("acme"));
    let answer = format!(
        r#"{{"_index":"shared","_id":"acme:7","_source":{}}}"#,
        String::from_utf8(f.body).unwrap()
    );
    let read = request("GET", "/orders/_doc/7", Some("acme"), b"");
    let parts = RequestParts::from_filter(&read, "").unwrap();
    let resolved = resolve(&shared_router(), &parts);
    let shaped = shape_read_response(&parts.ctx(), &resolved, answer.as_bytes()).unwrap();
    let shown = parsed(&shaped);
    assert_eq!(shown["_source"], parsed(document));
    assert_eq!(shown["_id"], text("7"));
    assert_eq!(shown["_index"], text("orders"));
}

#[test]
fn ids_of_different_partitions_differ() {
    let id = |partition: &str, id: &str| {
        let rule = DocIdRule {
            template: FilterConfig::default().id_template,
            set_routing: false,
        };
        physical_id(&BodyTransform::ConstructId(rule), partition, id)
            .unwrap()
            .0
    };
    assert_eq!(id("acme", "1"), "acme:1");
    assert_ne!(id("acme", "1"), id("globex", "1"));
    assert_ne!(id("acme", "1"), id("acme", "2"));
    // A colon in the partition's own name gives the distinction up.
    assert_eq!(id("a:b", "c"), id("a", "b:c"));
}

#[test]
fn templates_need_exactly_one_key() {
    let mapped = |template: &str| {
        let rule = DocIdRule {
            template: template.to_owned(),
            set_routing: false,
        };
        physical_id(&BodyTransform::ConstructId(rule), "p", "7").map(|(id, _)| id)
    };
    assert_eq!(mapped("{body.id}").unwrap(), "7");
    assert_eq!(mapped("a}{body.}b{partition}").unwrap(), "a}7bp");
    for template in [
        "",
        "plain",
        "{partition}",
        "{body.a}{body.b}",
        "{body.a",
        "{other}{body.a}",
        "{{body.a}}",
    ] {
        assert!(mapped(template).is_err(), "{template}");
    }
    // A template without a key still gives a written document its id.
    let rule = DocIdRule {
        template: "only-{partition}".to_owned(),
        set_routing: false,
    };
    let written = apply(b"{}", &BodyTransform::ConstructId(rule), "p").unwrap();
    assert_eq!(written.id.as_deref(), Some("only-p"));
}

#[test]
fn mget_takes_docs_or_ids() {
    let ids = |body: &[u8]| {
        let req = request("POST", "/orders/_mget", Some("acme"), body);
        match prepared(&shared_router(), &req) {
            Forward::Upstream(f) => {
                let docs = parsed(&f.body)["docs"].as_array().unwrap().clone();
                Some(docs.iter().map(|d| d["_id"].clone()).collect::<Vec<_>>())
            }
            Forward::Immediate(_) => None,
        }
    };
    assert_eq!(
        ids(br#"{"ids":["1","2"]}"#),
        Some(vec![text("acme:1"), text("acme:2")])
    );
    // A list of documents wins over a list of ids.
    assert_eq!(
        ids(br#"{"ids":["1"],"docs":[{"_id":"3"}]}"#),
        Some(vec![text("acme:3")])
    );
    assert_eq!(ids(br#"{"ids":[]}"#), Some(Vec::new()));
    assert_eq!(ids(br#"{"ids":[1]}"#), None);
    assert_eq!(ids(br#"{"docs":[{}]}"#), None);
    assert_eq!(ids(br#"{"docs":1}"#), None);
    assert_eq!(ids(b"{}"), None);
    assert_eq!(ids(b"nope"), None);
}

#[test]
fn msearch_skips_blank_lines() {
    let searched = |body: &[u8]| {
        let req = request("POST", "/orders/_msearch", Some("acme"), body);
        match prepared(&router(dedicated_index(), None), &req) {
            Forward::Upstream(f) => Some(String::from_utf8(f.body).unwrap()),
            Forward::Immediate(_) => None,
        }
    };
    assert_eq!(
        searched(b"\n{}\n \t\r\n{\"size\":1}\n\x0c\n").as_deref(),
        Some("{\"index\":\"orders-p1\"}\n{\"size\":1}\n")
    );
    assert_eq!(searched(b"").as_deref(), Some(""));
    assert_eq!(searched(b"{}\n{}\n{}\n"), None);
    assert_eq!(searched(b"{}\nnope\n"), None);
}

#[test]
fn searches_keep_the_clients_query_and_settings() {
    let req = request(
        "POST",
        "/shared/_search",
        Some("acme"),
        br#"{"size":3,"query":{"match":{"a":"b"}}}"#,
    );
    let f = upstream(prepared(&shared_router(), &req));
    assert_eq!(
        parsed(&f.body),
        parsed(
            br#"{"size":3,"query":{"bool":{"must":[{"match":{"a":"b"}}],
                 "filter":[{"term":{"_tenant":"acme"}}]}}}"#
        )
    );
}

#[test]
fn transformed_documents_are_forwarded_under_their_id() {
    let resolved = shared_resolved();
    let forwarded = |id: Option<&str>, routing: Option<&str>, client: Option<&str>| {
        let t = Transformed {
            id: id.map(str::to_owned),
            body: b"{}".to_vec(),
            routing: routing.map(str::to_owned),
        };
        let f = upstream(forward_document(&resolved, client, t));
        assert_eq!(f.cluster, "eu-1");
        assert_eq!(f.body, b"{}");
        (f.method, f.path)
    };
    assert_eq!(
        forwarded(Some("a:1"), Some("a"), Some("9")),
        ("PUT", "/shared/_doc/a%3A1?routing=a".to_owned())
    );
    assert_eq!(
        forwarded(None, None, Some("9")),
        ("PUT", "/shared/_doc/9".to_owned())
    );
    assert_eq!(
        forwarded(None, None, None),
        ("POST", "/shared/_doc".to_owned())
    );
}

#[test]
fn filtered_queries_are_forwarded_to_the_physical_index() {
    let resolved = shared_resolved();
    let f = upstream(forward_filtered(&resolved, "_count", Ok(b"{}".to_vec())));
    assert_eq!((f.method, f.path.as_str()), ("POST", "/shared/_count"));
    let err = Err(PrepareError::UnresolvedInjectedValue);
    assert_eq!(immediate(forward_filtered(&resolved, "_count", err)).0, 500);
}

#[test]
fn bulk_items_are_written_line_by_line() {
    let resolved = shared_resolved();
    let done = |id: Option<&str>| {
        Some(Transformed {
            id: id.map(str::to_owned),
            body: b"{\"k\":1}".to_vec(),
            routing: None,
        })
    };
    let written = |action, id, done| {
        String::from_utf8(write_item(&resolved, action, id, done).unwrap()).unwrap()
    };
    assert_eq!(
        written(BulkAction::Index, None, done(Some("made"))),
        "{\"index\":{\"_id\":\"made\",\"_index\":\"shared\",\"routing\":\"acme\"}}\n{\"k\":1}\n"
    );
    assert_eq!(
        written(BulkAction::Update, Some("7"), done(Some("made"))),
        "{\"update\":{\"_id\":\"acme:7\",\"_index\":\"shared\",\"routing\":\"acme\"}}\n{\"k\":1}\n"
    );
    assert_eq!(
        written(BulkAction::Delete, None, None),
        "{\"delete\":{\"_index\":\"shared\",\"routing\":\"acme\"}}\n"
    );
}

// ---- tenants in the path ----

fn by_path() -> Reference {
    reference(
        r#"{"cluster":"os","shared_index":"shared","partition_source":"path","partition_header":"x-tenant","passthrough_indices":["catalog"]}"#,
    )
}

fn explained_by(f: &Reference, req: &FilterRequest) -> String {
    match f.explain(req) {
        ExplainStep::Done(line) => line,
        ExplainStep::Route(parts) => {
            let o = outcome(f.router(), &parts, true);
            f.explain_outcome(&parts, &o)
        }
    }
}

#[test]
fn path_tenant_wins_over_the_clients_header() {
    let f = filter().with_path_partition_header("x-tenant");
    let mut req = request("PUT", "/acme/orders/_doc/1", Some("evil"), b"{}");
    req.headers.push(("X-Tenant".to_owned(), "evil".to_owned()));
    let mut actions = FakeActions::default();
    let parts = match f.handle(&req, &mut actions) {
        HandleStep::Route(parts) => Some(parts),
        HandleStep::Done(_) => None,
    }
    .expect("a request to be routed");
    assert_eq!(parts.ctx().path(), "/orders/_doc/1");
    assert_eq!(parts.ctx().header("x-tenant"), Some("acme"));
    assert_eq!(parts.ctx().header("x-request-id"), Some("req-1"));
    let named = parts
        .ctx()
        .headers()
        .iter()
        .filter(|(k, _)| k.eq_ignore_ascii_case("x-tenant"))
        .count();
    assert_eq!(named, 1);
    // What is stored is stored for the tenant in the path.
    let write = request("PUT", "/acme/orders/_doc/1", Some("evil"), br#"{"id":1}"#);
    let (_, actions) = handle(&by_path(), &write);
    assert_eq!(
        actions.path.as_deref(),
        Some("/shared/_doc/acme%3A1?routing=acme")
    );
    assert_eq!(parsed(&actions.body.unwrap())["_tenant"], text("acme"));
}

#[test]
fn path_tenants_count_in_every_phase() {
    let f = by_path();
    assert!(f.is_write(&request("PUT", "/acme/orders/_doc/1", None, b"{}")));
    assert!(!f.is_write(&request("GET", "/acme/orders/_doc/1", None, b"")));
    let read = request("GET", "/acme/orders/_doc/1", Some("evil"), b"");
    let answer = br#"{"_index":"shared","_id":"acme:1","_source":{"_tenant":"acme","k":1}}"#;
    let shaped = parsed(&shape_response(&f, &read, answer).unwrap());
    assert_eq!(shaped, parsed(br#"{"_index":"orders","_id":"1","_source":{"k":1}}"#));
    let parts = f.parts(&read).unwrap();
    assert_eq!(
        f.decision_shape(&read, &resolve(f.router(), &parts)).as_deref(),
        Some("transform=both;migration=settled;isolation=on")
    );
    assert!(explained_by(&f, &read).contains(r#""endpoint":"GetById","outcome":"route""#));
    let write = request("PUT", "/acme/orders/_doc/1", None, br#"{"id":1}"#);
    let (reply, produced) = async_write(&f, &write, true, true);
    assert_eq!(reply.status, 202);
    assert_eq!(
        produced.unwrap().path,
        "/shared/_doc/acme%3A1?routing=acme"
    );
}

#[test]
fn explanations_include_the_filters_own_policies() {
    let f = filter()
        .with_require_mtls_for_mutation(true)
        .with_passthrough_indices(vec!["catalog".to_owned()]);
    let write = request("PUT", "/orders/_doc/1", Some("acme"), b"{}");
    assert_eq!(
        explained_by(&f, &write),
        r#"{"endpoint":"IngestDoc","outcome":"reject","status":403,"code":"mtls_required_for_mutation"}"#
    );
    assert_eq!(handle(&f, &write).1.local_reply.unwrap().0, 403);
    let pass = request("POST", "/catalog/_search", None, b"{}");
    assert_eq!(
        explained_by(&f, &pass),
        r#"{"endpoint":"Search","outcome":"route","decision":"passthrough"}"#
    );
    assert_eq!(handle(&f, &pass).0, FilterDecision::ContinueUpstream);
}

#[test]
fn passthrough_responses_are_left_alone() {
    let f = by_path();
    let req = request("GET", "/acme/catalog/_doc/1", Some("acme"), b"");
    assert!(f.parts(&req).is_none());
    assert!(shape_response(&f, &req, br#"{"_id":"acme:1"}"#).is_none());
    assert!(f
        .decision_shape(&req, &Ok(shared_resolved()))
        .is_none());
}

// ---- untransformed writes ----

#[test]
fn queued_passthrough_writes_keep_their_body() {
    let f = by_path();
    let req = request("PUT", "/acme/catalog/_doc/7?refresh=true", None, br#"{"k":1}"#);
    let (reply, produced) = async_write(&f, &req, true, true);
    assert_eq!(reply.status, 202);
    let produced = produced.unwrap();
    assert_eq!(produced.path, "/catalog/_doc/7?refresh=true");
    assert_eq!(produced.body, br#"{"k":1}"#);

    let f = filter().with_passthrough_indices(vec!["catalog".to_owned()]);
    let mut sink = Sink {
        ack: true,
        acked: Vec::new(),
    };
    let mut observe = Observe::default();
    let mut state = StreamState::default();
    let pairs = [
        (":method", "PUT"),
        (":path", "/catalog/_doc/7?refresh=true"),
        ("x-evoxy-write-mode", "async"),
    ];
    let headers = message(&pairs, false);
    process(&f, &mut observe, Some(&mut sink), &mut state, headers);
    let body = ProcMessage::RequestBody(br#"{"k":1}"#.to_vec());
    let resp = process(&f, &mut observe, Some(&mut sink), &mut state, body);
    assert_eq!(immediate_parts(resp).0, 202);
    assert_eq!(
        sink.acked,
        vec![(
            "/catalog/_doc/7?refresh=true".to_owned(),
            br#"{"k":1}"#.to_vec()
        )]
    );
}

#[test]
fn request_lines_are_compared_as_received() {
    let f = filter();
    let line = |path: &str| {
        let pairs = [(":method", "GET"), (":path", path), ("x-tenant", "acme")];
        let mut state = StreamState::default();
        let msg = message(&pairs, true);
        match process(&f, &mut Observe::default(), None, &mut state, msg) {
            ProcResponse::RequestHeaders(common) => Some(setting(&common, ":path")),
            _ => None,
        }
        .expect("a request headers response")
    };
    assert_eq!(line("/orders/_doc/42"), None);
    assert_eq!(
        line("/orders/_doc/42?pretty").as_deref(),
        Some("/orders/_doc/42")
    );
}

// ---- raw texts ----

#[test]
fn raw_text_objects_are_stamped_like_any_other() {
    // An object of one field under this key is read as the document its text is.
    let key = evoxy::json::RAW_KEY;
    let body = format!(r#"{{"{key}":"{{\"_tenant\":1}}"}}"#);
    assert_eq!(parsed(body.as_bytes()), parsed(br#"{"_tenant":1}"#));
    let inject = vec![field("_tenant", InjectedValue::PartitionId)];
    let t = apply(body.as_bytes(), &BodyTransform::Inject(inject), "acme").unwrap();
    let stored = parsed(&t.body);
    assert_eq!(stored["_tenant"], text("acme"));
    assert_eq!(stored[key], text(r#"{"_tenant":1}"#));
    // Searches cannot be hidden in one either.
    let terms = vec![("_tenant".to_owned(), text("acme"))];
    let out = filtered_query(
        format!(r#"{{"{key}":"{{}}","size":1}}"#).as_bytes(),
        &terms,
    )
    .unwrap();
    assert!(String::from_utf8(out)
        .unwrap()
        .contains(r#""filter":[{"term":{"_tenant":"acme"}}]"#));
}

#[test]
fn untouched_bodies_are_any_json_object() {
    for body in ["{}", " \t\r\n{\"a\":[1]} ", r#"{"\ud800":1}"#] {
        let t = apply(body.as_bytes(), &BodyTransform::Unchanged, "p").unwrap();
        assert_eq!(t.body, body.as_bytes());
    }
    for body in ["", "  ", "[1]", "7", "null", "{", "{}{}", "nope"] {
        assert!(
            apply(body.as_bytes(), &BodyTransform::Unchanged, "p").is_err(),
            "{body}"
        );
    }
}

#[test]
fn a_certificate_named_anonymous_is_somebody() {
    let f = reference(
        r#"{"cluster":"os","shared_index":"shared","partition_source":"principal"}"#,
    );
    let mut req = request("GET", "/orders/_doc/1", Some("acme"), b"");
    let (decision, _) = handle(&f, &req);
    assert_eq!(decision, FilterDecision::StoppedWithLocalReply);
    req.identity = MtlsIdentity {
        presented: true,
        subject: "anonymous".to_owned(),
        uri_sans: Vec::new(),
    };
    let parts = RequestParts::from_filter(&req, "").unwrap();
    assert_eq!(parts.ctx().identity(), Some("anonymous"));
    let (_, actions) = handle(&f, &req);
    assert_eq!(
        actions.path.as_deref(),
        Some("/shared/_doc/anonymous%3A1?routing=anonymous")
    );
}

#[test]
fn queued_writes_are_routed_as_they_came() {
    let f = dedicated_index_filter();
    let req = request("PUT", "/orders/_doc/42", Some("acme"), b"{}");
    let parts = match f.async_write(&req, true) {
        AsyncStep::Route(parts, _) => Some(parts),
        _ => None,
    }
    .expect("a request to be routed");
    assert_eq!(parts.ctx().header("x-tenant"), Some("acme"));
    assert_eq!(parts.ctx().body(), b"{}");
}
