//! Transform, then forward: from a request and what the tenancy decided about it to
//! the request that is forwarded, or to a fail-closed reply.
//!
//! Nothing here dispatches. Asking the tenancy may take time, so it is left to the
//! caller: [`start`], [`on_resolved`] and [`on_admitted`] say what to ask next, and
//! what comes of it in the end is a [`RouteOutcome`] that [`prepare`] and [`explain`]
//! turn into a forward or an explanation. The only replies made here are fail-closed,
//! and their bodies are shape-only: an error code, never a tenant value.
use vstd::prelude::*;
use vstd::string::StringExecFns;
use crate::abi::header_value;
use crate::abi::json_response;
use crate::abi::FilterResponse;
use crate::abi::ResponseView;
use crate::adapter::PartsView;
use crate::adapter::RequestCtx;
use crate::authority::authority_of;
use crate::authority::authority_spec;
use crate::classify::EndpointKind;
use crate::classify::HttpMethod;
use crate::decision::copy_ops;
use crate::decision::op_views;
use crate::decision::resolution;
use crate::decision::BodyTransform;
use crate::decision::HeaderOp;
use crate::decision::HeaderOpView;
use crate::decision::Resolution;
use crate::decision::Resolved;
use crate::decision::ResolvedView;
use crate::decision::SpiError;
use crate::decision::Target;
use crate::decision::TransformView;
use crate::demux;
use crate::demux::bulk_body;
use crate::demux::bulk_lines;
use crate::demux::fetches_are_refused_only_by_the_id_rule;
use crate::demux::fetches_are_scoped;
use crate::demux::items_keep_to_partition;
use crate::demux::mget_body;
use crate::demux::mget_document;
use crate::demux::msearch_body;
use crate::demux::msearch_lines;
use crate::demux::searches_are_confined;
use crate::demux::searches_are_refused_only_by_their_queries;
use crate::encode::encode;
use crate::encode::encoded;
use crate::json::parsed;
use crate::json::serialized;
use crate::json::Json;
use crate::read;
use crate::read::confines;
use crate::read::filtered;
use crate::read::ids_round_trip;
use crate::read::is_scoped;
use crate::read::mapped_id;
use crate::read::mapped_ids_are_scoped;
use crate::read::partition_terms;
use crate::read::searches_are_wrapped_as_they_came;
use crate::read::unmapped_id;
use crate::response;
use crate::response::reshaped;
use crate::response::shaped_bulk;
use crate::response::shaped_get;
use crate::response::shaped_mget;
use crate::response::shaped_msearch;
use crate::response::shaped_search;
use crate::rewrite::bulk_items;
use crate::rewrite::mget_ids;
use crate::rewrite::msearch_queries;
use crate::template::id_frame;
use crate::text;
use crate::text::decimal;
use crate::trace::trace_id_of;
use crate::trace::trace_id_spec;
use crate::transform;
use crate::transform::bytes_result;
use crate::transform::stamps;
use crate::transform::transformed;
use crate::transform::ErrorKind;
use crate::transform::PrepareError;
use crate::transform::Transformed;
use crate::transform::TransformedView;

verus! {

/// The kind of a transform, as a word.
pub open spec fn transform_word(transform: TransformView) -> Seq<char> {
    match transform {
        TransformView::Unchanged => "none"@,
        TransformView::Inject(_) => "inject"@,
        TransformView::ConstructId(_) => "construct_id"@,
        TransformView::Both { .. } => "both"@,
    }
}

/// The shape of a decision: the kind of its transform, the migration phase, and
/// whether an isolation field is injected.
pub open spec fn shape_of(resolved: ResolvedView) -> Seq<char> {
    "transform="@ + transform_word(resolved.transform) + ";migration="@ + resolved.migration.name()
        + ";isolation="@ + if resolved.transform.injects() {
        "on"@
    } else {
        "off"@
    }
}

/// The shape of a decision carries no tenant value: it is one and the same for all
/// decisions with the same kind of transform and the same migration phase, whatever
/// their partition, target, fields and ids.
pub proof fn decision_shapes_are_shape_only(one: ResolvedView, other: ResolvedView)
    requires
        transform_word(one.transform) == transform_word(other.transform),
        one.transform.injects() == other.transform.injects(),
        one.migration == other.migration,
    ensures
        shape_of(one) == shape_of(other),
{
}

/// A shape-only summary of a routing decision: the transform kind, the migration
/// phase, and whether isolation is applied by an injected field. A dedicated
/// placement isolates by cluster or index instead.
#[must_use]
pub fn decision_shape(resolved: &Resolved) -> (shape: String)
    ensures
        shape@ == shape_of(resolved@),
{
    let transform = match &resolved.decision.body_transform {
        BodyTransform::Unchanged => "none",
        BodyTransform::Inject(_) => "inject",
        BodyTransform::ConstructId(_) => "construct_id",
        BodyTransform::Both { .. } => "both",
    };
    let isolation = match &resolved.decision.body_transform {
        BodyTransform::Inject(_) | BodyTransform::Both { .. } => "on",
        _ => "off",
    };
    let mut shape = text::concat("transform=", transform);
    shape.append(";migration=");
    shape.append(resolved.migration.as_str());
    shape.append(";isolation=");
    shape.append(isolation);
    shape
}

/// What to do with a request after routing.
#[derive(Debug, Clone)]
pub enum Forward {
    /// Forward upstream.
    Upstream(PreparedForward),
    /// Reply now without forwarding.
    Immediate(FilterResponse),
}

/// The mutated request to forward.
#[derive(Debug, Clone)]
pub struct PreparedForward {
    /// The cluster id to route to.
    pub cluster: String,
    /// The method to forward with.
    pub method: &'static str,
    /// The rewritten path: physical index, id, and routing value.
    pub path: String,
    /// The rewritten body.
    pub body: Vec<u8>,
    /// Header mutations to apply before forwarding.
    pub header_ops: Vec<HeaderOp>,
    /// The authority of the placement's endpoint, where the tenancy names one.
    pub upstream_host: Option<String>,
}

/// The view of a [`PreparedForward`].
#[verifier::ext_equal]
pub struct PreparedView {
    /// The cluster id.
    pub cluster: Seq<char>,
    /// The method.
    pub method: Seq<char>,
    /// The path.
    pub path: Seq<char>,
    /// The body.
    pub body: Seq<u8>,
    /// The header mutations.
    pub header_ops: Seq<HeaderOpView>,
    /// The upstream authority.
    pub upstream_host: Option<Seq<char>>,
}

impl View for PreparedForward {
    type V = PreparedView;

    open spec fn view(&self) -> PreparedView {
        PreparedView {
            cluster: self.cluster@,
            method: self.method@,
            path: self.path@,
            body: self.body@,
            header_ops: op_views(self.header_ops@),
            upstream_host: text::optional(self.upstream_host),
        }
    }
}

/// The view of a [`Forward`].
pub enum ForwardView {
    /// Forward upstream.
    Upstream(PreparedView),
    /// Reply now.
    Immediate(ResponseView),
}

impl View for Forward {
    type V = ForwardView;

    open spec fn view(&self) -> ForwardView {
        match self {
            Forward::Upstream(f) => ForwardView::Upstream(f@),
            Forward::Immediate(r) => ForwardView::Immediate(r@),
        }
    }
}

/// The endpoints that [`prepare`] handles.
pub open spec fn supported(kind: EndpointKind) -> bool {
    ||| kind is IngestDoc
    ||| kind is IngestBulk
    ||| kind is GetById
    ||| kind is DeleteById
    ||| kind is Search
    ||| kind is Count
    ||| kind is MultiGet
    ||| kind is MultiSearch
}

/// Whether [`prepare`] handles this endpoint; the others fail closed with `501`.
#[must_use]
pub fn is_supported(kind: EndpointKind) -> (r: bool)
    ensures
        r == supported(kind),
{
    match kind {
        EndpointKind::IngestDoc | EndpointKind::IngestBulk | EndpointKind::GetById
        | EndpointKind::DeleteById | EndpointKind::Search | EndpointKind::Count
        | EndpointKind::MultiGet | EndpointKind::MultiSearch => true,
        _ => false,
    }
}

/// What became of routing a request.
#[derive(Debug, Clone)]
pub enum RouteOutcome {
    /// The request is refused.
    Rejected {
        /// The status of the refusal.
        status: u16,
        /// The shape-only code of the refusal.
        code: &'static str,
    },
    /// The request goes to a placement.
    Routed(Resolved),
}

/// The view of a [`RouteOutcome`].
pub enum OutcomeView {
    /// The request is refused.
    Rejected(u16, Seq<char>),
    /// The request goes to a placement.
    Routed(ResolvedView),
}

impl View for RouteOutcome {
    type V = OutcomeView;

    open spec fn view(&self) -> OutcomeView {
        match self {
            RouteOutcome::Rejected { status, code } => OutcomeView::Rejected(*status, code@),
            RouteOutcome::Routed(resolved) => OutcomeView::Routed(resolved@),
        }
    }
}

/// What to ask before a request can be routed.
#[derive(Debug, Clone)]
pub enum RouteStep {
    /// Ask the tenancy to resolve the request.
    Resolve,
    /// Ask the tenancy whether it admits a write to this placement.
    Admit(Resolved),
    /// Nothing: this is the outcome.
    Done(RouteOutcome),
}

/// The status of a resolution failure. One that is not the tenancy's own, and any
/// that is not known here, fails closed as a bad request rather than route blind.
pub open spec fn spi_status_of(err: SpiError) -> u16 {
    match err {
        SpiError::UnsupportedEndpoint(_) => 501,
        SpiError::PlacementMissing | SpiError::PlacementBackend { .. } => 503,
        SpiError::IdRuleMissingPartition => 500,
        _ => 400,
    }
}

/// The shape-only code of a resolution failure.
pub open spec fn spi_code_of(err: SpiError) -> Seq<char> {
    match err {
        SpiError::PartitionUnresolved => "partition_unresolved"@,
        SpiError::PrincipalAttrMissing => "principal_attr_missing"@,
        SpiError::HeaderMissing => "header_missing"@,
        SpiError::UnsupportedEndpoint(_) => "unsupported_endpoint"@,
        SpiError::PlacementMissing => "placement_missing"@,
        SpiError::PlacementBackend { .. } => "placement_backend"@,
        SpiError::IdRuleMissingPartition => "id_rule_missing_partition"@,
        SpiError::Other => "routing_error"@,
    }
}

/// What becomes of a request that the tenancy answers with `answer`, and whose write
/// it admits or not. An endpoint that is not handled is refused whatever the tenancy
/// says; only writes depend on admission.
pub open spec fn outcome_of(
    kind: EndpointKind,
    answer: Resolution,
    admitted: bool,
) -> OutcomeView {
    if !supported(kind) {
        OutcomeView::Rejected(501, "endpoint_not_supported_yet"@)
    } else {
        match answer {
            Err(err) => OutcomeView::Rejected(spi_status_of(err), spi_code_of(err)),
            Ok(resolved) => if kind.writes() && !admitted {
                OutcomeView::Rejected(409, "stale_epoch"@)
            } else {
                OutcomeView::Routed(resolved)
            },
        }
    }
}

/// An endpoint that is not handled is refused without a look at the tenancy.
pub proof fn unsupported_endpoints_are_refused_unasked(
    kind: EndpointKind,
    one: Resolution,
    other: Resolution,
    admitted: bool,
)
    requires
        !supported(kind),
    ensures
        outcome_of(kind, one, admitted) == outcome_of(kind, other, admitted),
        outcome_of(kind, one, admitted) == OutcomeView::Rejected(
            501,
            "endpoint_not_supported_yet"@,
        ),
{
}

/// Reads are never gated: whether the tenancy admits writes makes no difference to a
/// request that is no write.
pub proof fn reads_are_never_gated(kind: EndpointKind, answer: Resolution)
    requires
        !kind.writes(),
    ensures
        outcome_of(kind, answer, true) == outcome_of(kind, answer, false),
{
}

/// A write that the tenancy does not admit is never routed.
pub proof fn held_writes_are_never_routed(kind: EndpointKind, answer: Resolution)
    requires
        kind.writes(),
    ensures
        outcome_of(kind, answer, false) is Rejected,
        answer is Ok ==> outcome_of(kind, answer, false) == OutcomeView::Rejected(
            409,
            "stale_epoch"@,
        ),
{
}

/// The first step of routing a request to an endpoint. An endpoint that is not
/// handled is refused before anything is resolved.
#[must_use]
pub fn start(kind: EndpointKind) -> (step: RouteStep)
    ensures
        match step {
            RouteStep::Resolve => supported(kind),
            RouteStep::Admit(_) => false,
            RouteStep::Done(outcome) => forall|answer: Resolution, admitted: bool|
                outcome@ == #[trigger] outcome_of(kind, answer, admitted),
        },
        step is Resolve <==> supported(kind),
{
    if is_supported(kind) {
        RouteStep::Resolve
    } else {
        RouteStep::Done(not_supported())
    }
}

/// The step after the tenancy answered. A resolved write is to be admitted first,
/// unless only the target is asked for (`gated` is false).
#[must_use]
pub fn on_resolved(kind: EndpointKind, gated: bool, answer: Result<Resolved, SpiError>) -> (step:
    RouteStep)
    ensures
        match step {
            RouteStep::Resolve => false,
            RouteStep::Admit(resolved) => {
                &&& gated && supported(kind) && kind.writes()
                &&& resolution(answer) == Ok::<ResolvedView, SpiError>(resolved@)
            },
            RouteStep::Done(outcome) => {
                &&& outcome@ == outcome_of(kind, resolution(answer), true)
                &&& gated ==> outcome@ == outcome_of(kind, resolution(answer), false)
            },
        },
        step is Admit <==> gated && supported(kind) && kind.writes() && answer is Ok,
{
    if !is_supported(kind) {
        return RouteStep::Done(not_supported());
    }
    match answer {
        Ok(resolved) => if gated && kind.is_write() {
            RouteStep::Admit(resolved)
        } else {
            RouteStep::Done(RouteOutcome::Routed(resolved))
        },
        Err(err) => RouteStep::Done(
            RouteOutcome::Rejected { status: spi_status(err), code: spi_code(err) },
        ),
    }
}

/// The outcome once the tenancy said whether it admits the write. A write that is
/// held fails closed with a retryable `409`, so that the client resolves it anew.
#[must_use]
pub fn on_admitted(kind: EndpointKind, resolved: Resolved, admitted: bool) -> (outcome:
    RouteOutcome)
    ensures
        outcome@ == outcome_of(kind, Ok(resolved@), admitted),
{
    if !is_supported(kind) {
        not_supported()
    } else if kind.is_write() && !admitted {
        RouteOutcome::Rejected { status: 409, code: "stale_epoch" }
    } else {
        RouteOutcome::Routed(resolved)
    }
}

fn not_supported() -> (outcome: RouteOutcome)
    ensures
        outcome@ == OutcomeView::Rejected(501, "endpoint_not_supported_yet"@),
{
    RouteOutcome::Rejected { status: 501, code: "endpoint_not_supported_yet" }
}

/// Maps a resolution failure to a fail-closed status.
fn spi_status(err: SpiError) -> (status: u16)
    ensures
        status == spi_status_of(err),
{
    match err {
        SpiError::UnsupportedEndpoint(_) => 501,
        SpiError::PlacementMissing | SpiError::PlacementBackend { .. } => 503,
        SpiError::IdRuleMissingPartition => 500,
        _ => 400,
    }
}

/// A stable, shape-only code for a resolution failure.
fn spi_code(err: SpiError) -> (code: &'static str)
    ensures
        code@ == spi_code_of(err),
{
    match err {
        SpiError::PartitionUnresolved => "partition_unresolved",
        SpiError::PrincipalAttrMissing => "principal_attr_missing",
        SpiError::HeaderMissing => "header_missing",
        SpiError::UnsupportedEndpoint(_) => "unsupported_endpoint",
        SpiError::PlacementMissing => "placement_missing",
        SpiError::PlacementBackend { .. } => "placement_backend",
        SpiError::IdRuleMissingPartition => "id_rule_missing_partition",
        SpiError::Other => "routing_error",
    }
}

/// The status of a rewrite failure.
pub open spec fn prepare_status_of(kind: ErrorKind) -> u16 {
    match kind {
        ErrorKind::Rewrite => 400,
        ErrorKind::UnresolvedInjectedValue => 500,
    }
}

/// The shape-only code of a rewrite failure.
pub open spec fn prepare_code_of(kind: ErrorKind) -> Seq<char> {
    match kind {
        ErrorKind::Rewrite => "body_rewrite_failed"@,
        ErrorKind::UnresolvedInjectedValue => "unresolved_injected_value"@,
    }
}

/// The text of a fail-closed body.
pub open spec fn error_text(code: Seq<char>) -> Seq<char> {
    "{\"error\":\""@ + code + "\"}"@
}

/// A fail-closed body.
pub open spec fn error_body(code: Seq<char>) -> Seq<u8> {
    vstd::utf8::encode_utf8(error_text(code))
}

/// A fail-closed response: a status and a code, nothing else.
pub open spec fn refusal(status: u16, code: Seq<char>) -> ResponseView {
    json_response(status, error_body(code))
}

/// A shape-only fail-closed response: `{"error":"<code>"}`.
#[must_use]
pub fn immediate(status: u16, code: &str) -> (r: FilterResponse)
    ensures
        r@ == refusal(status, code@),
{
    let mut body = text::concat("{\"error\":\"", code);
    body.append("\"}");
    FilterResponse::json(status, text::bytes_of(body.as_str()))
}

/// The refusal of a request that could not be rewritten.
fn rewrite_refusal(err: &PrepareError) -> (r: FilterResponse)
    ensures
        r@ == refusal(prepare_status_of(err@), prepare_code_of(err@)),
{
    match err {
        PrepareError::Rewrite(_) => immediate(400, "body_rewrite_failed"),
        PrepareError::UnresolvedInjectedValue => immediate(500, "unresolved_injected_value"),
    }
}

/// The forward of a body that could be rewritten, or the refusal of one that could
/// not.
pub open spec fn forward_of(
    resolved: ResolvedView,
    method: Seq<char>,
    path: Seq<char>,
    body: Result<Seq<u8>, ErrorKind>,
) -> ForwardView {
    match body {
        Err(kind) => ForwardView::Immediate(
            refusal(prepare_status_of(kind), prepare_code_of(kind)),
        ),
        Ok(body) => ForwardView::Upstream(
            PreparedView {
                cluster: resolved.target.cluster,
                method,
                path,
                body,
                header_ops: resolved.header_ops,
                upstream_host: host_of(resolved),
            },
        ),
    }
}

/// The authority that the placement's endpoint names.
pub open spec fn host_of(resolved: ResolvedView) -> Option<Seq<char>> {
    match resolved.target.endpoint {
        Some(endpoint) => authority_spec(endpoint),
        None => None,
    }
}

fn upstream_host(target: &Target) -> (r: Option<String>)
    ensures
        text::optional(r) == match target@.endpoint {
            Some(endpoint) => authority_spec(endpoint),
            None => None,
        },
{
    match &target.endpoint {
        Some(endpoint) => authority_of(endpoint.as_str()),
        None => None,
    }
}

fn forward(
    resolved: &Resolved,
    method: &'static str,
    path: String,
    body: Result<Vec<u8>, PrepareError>,
) -> (f: Forward)
    ensures
        f@ == forward_of(resolved@, method@, path@, bytes_result(body)),
{
    match body {
        Err(err) => Forward::Immediate(rewrite_refusal(&err)),
        Ok(body) => Forward::Upstream(
            PreparedForward {
                cluster: resolved.decision.target.cluster.clone(),
                method,
                path,
                body,
                header_ops: copy_ops(&resolved.decision.header_ops),
                upstream_host: upstream_host(&resolved.decision.target),
            },
        ),
    }
}

/// The query that carries a routing value.
pub open spec fn routing_query(routing: Option<Seq<char>>) -> Seq<char> {
    match routing {
        Some(routing) => "?routing="@ + encoded(routing),
        None => seq![],
    }
}

/// The path of one document of an index.
pub open spec fn doc_path(index: Seq<char>, id: Seq<char>) -> Seq<char> {
    "/"@ + index + "/_doc/"@ + encoded(id)
}

/// The method and path of a write: `PUT` of one document when its id is known, else
/// `POST` to the index.
pub open spec fn write_line(
    index: Seq<char>,
    id: Option<Seq<char>>,
    routing: Option<Seq<char>>,
) -> (Seq<char>, Seq<char>) {
    match id {
        Some(id) => ("PUT"@, doc_path(index, id) + routing_query(routing)),
        None => ("POST"@, "/"@ + index + "/_doc"@ + routing_query(routing)),
    }
}

fn push_routing(path: &mut String, routing: Option<&str>)
    ensures
        final(path)@ == old(path)@ + routing_query(text::viewed(routing)),
{
    let ghost before = path@;
    if let Some(routing) = routing {
        path.append("?routing=");
        path.append(encode(routing).as_str());
    }
    assert(path@ =~= before + routing_query(text::viewed(routing)));
}

fn doc_path_of(index: &str, id: &str) -> (path: String)
    ensures
        path@ == doc_path(index@, id@),
{
    let mut path = text::concat("/", index);
    path.append("/_doc/");
    path.append(encode(id).as_str());
    path
}

/// The physical request line of a write. The id is percent-encoded, because a
/// constructed id may embed a URI; an index name has no reserved characters.
fn write_path(index: &str, id: Option<&str>, routing: Option<&str>) -> (r: (&'static str, String))
    ensures
        (r.0@, r.1@) == write_line(index@, text::viewed(id), text::viewed(routing)),
{
    match id {
        Some(id) => {
            let mut path = doc_path_of(index, id);
            push_routing(&mut path, routing);
            ("PUT", path)
        },
        None => {
            let mut path = text::concat("/", index);
            path.append("/_doc");
            push_routing(&mut path, routing);
            ("POST", path)
        },
    }
}

/// The forward of a document that was transformed. An id that the transform constructed
/// wins over the client's.
pub open spec fn document_forward_of(
    resolved: ResolvedView,
    doc_id: Option<Seq<char>>,
    t: TransformedView,
) -> ForwardView {
    let id = match t.id {
        Some(id) => Some(id),
        None => doc_id,
    };
    let (method, path) = write_line(resolved.target.index, id, t.routing);
    forward_of(resolved, method, path, Ok(t.body))
}

/// The forward of a single-document write.
pub open spec fn write_forward_of(resolved: ResolvedView, req: PartsView) -> ForwardView {
    match transformed(req.body, resolved.transform, resolved.partition) {
        Err(kind) => forward_of(resolved, seq![], seq![], Err(kind)),
        Ok(t) => document_forward_of(resolved, req.doc_id, t),
    }
}

/// Forwards a document that was transformed, under the id that the transform constructed
/// or else the client's.
#[must_use]
pub fn forward_document(resolved: &Resolved, doc_id: Option<&str>, t: Transformed) -> (f: Forward)
    ensures
        f@ == document_forward_of(resolved@, text::viewed(doc_id), t@),
{
    let id = match &t.id {
        Some(id) => Some(id.as_str()),
        None => doc_id,
    };
    let routing = match &t.routing {
        Some(routing) => Some(routing.as_str()),
        None => None,
    };
    let (method, path) = write_path(resolved.decision.target.index.as_str(), id, routing);
    forward(resolved, method, path, Ok(t.body))
}

/// The single-document write path.
fn write_forward(resolved: &Resolved, ctx: &RequestCtx<'_>) -> (f: Forward)
    ensures
        f@ == write_forward_of(resolved@, ctx@),
        match f@ {
            ForwardView::Upstream(f) => {
                &&& stamps(ctx@.body, resolved@.transform, resolved@.partition, f.body)
                &&& stores_in_partition(resolved@, f)
            },
            ForwardView::Immediate(_) => true,
        },
{
    let t = match transform::apply(
        ctx.body(),
        &resolved.decision.body_transform,
        resolved.partition.as_str(),
    ) {
        Ok(t) => t,
        Err(err) => return Forward::Immediate(rewrite_refusal(&err)),
    };
    proof {
        if let Some(id) = t@.id {
            let path = doc_path(resolved@.target.index, id) + routing_query(t@.routing);
            assert(document_forward_of(resolved@, ctx@.doc_id, t@)->Upstream_0.path == path);
        }
    }
    forward_document(resolved, ctx.doc_id(), t)
}

/// The name of a method.
pub open spec fn method_name(method: HttpMethod) -> Seq<char> {
    match method {
        HttpMethod::Get => "GET"@,
        HttpMethod::Put => "PUT"@,
        HttpMethod::Post => "POST"@,
        HttpMethod::Delete => "DELETE"@,
        HttpMethod::Head => "HEAD"@,
    }
}

fn method_str(method: HttpMethod) -> (r: &'static str)
    ensures
        r@ == method_name(method),
{
    match method {
        HttpMethod::Put => "PUT",
        HttpMethod::Post => "POST",
        HttpMethod::Delete => "DELETE",
        HttpMethod::Head => "HEAD",
        HttpMethod::Get => "GET",
    }
}

/// The forward of a read or delete by id: the physical id, and no body.
pub open spec fn by_id_forward_of(resolved: ResolvedView, req: PartsView) -> ForwardView {
    let logical = match req.doc_id {
        Some(id) => id,
        None => seq![],
    };
    match mapped_id(resolved.transform, resolved.partition, logical) {
        Err(kind) => forward_of(resolved, seq![], seq![], Err(kind)),
        Ok(physical) => forward_of(
            resolved,
            method_name(req.method),
            doc_path(resolved.target.index, physical) + routing_query(
                resolved.transform.routing(resolved.partition),
            ),
            Ok(seq![]),
        ),
    }
}

/// The by-id read and delete path.
fn by_id_forward(resolved: &Resolved, ctx: &RequestCtx<'_>) -> (f: Forward)
    ensures
        f@ == by_id_forward_of(resolved@, ctx@),
        match f@ {
            ForwardView::Upstream(f) => exists|id: Seq<char>|
                {
                    &&& is_scoped(resolved@.transform, resolved@.partition, id)
                    &&& f.path == #[trigger] doc_path(resolved@.target.index, id) + routing_query(
                        resolved@.transform.routing(resolved@.partition),
                    )
                },
            ForwardView::Immediate(_) => true,
        },
{
    proof {
        reveal_strlit("");
        assert(""@ =~= Seq::<char>::empty());
    }
    let logical_id = match ctx.doc_id() {
        Some(id) => id,
        None => "",
    };
    let (physical_id, routing) = match read::physical_id(
        &resolved.decision.body_transform,
        resolved.partition.as_str(),
        logical_id,
    ) {
        Ok(mapped) => mapped,
        Err(err) => return Forward::Immediate(rewrite_refusal(&err)),
    };
    let mut path = doc_path_of(resolved.decision.target.index.as_str(), physical_id.as_str());
    let routing = match &routing {
        Some(routing) => Some(routing.as_str()),
        None => None,
    };
    push_routing(&mut path, routing);
    let body: Vec<u8> = Vec::new();
    assert(body@ =~= Seq::<u8>::empty());
    forward(resolved, method_str(ctx.method()), path, Ok(body))
}

/// The forward of a search or count whose body was filtered, or could not be: the
/// physical index in the path.
pub open spec fn filtered_forward_of(
    resolved: ResolvedView,
    verb: Seq<char>,
    body: Result<Seq<u8>, ErrorKind>,
) -> ForwardView {
    forward_of(resolved, "POST"@, "/"@ + resolved.target.index + "/"@ + verb, body)
}

/// The forward of a search or count: with the partition filter in its query.
pub open spec fn query_forward_of(
    resolved: ResolvedView,
    req: PartsView,
    verb: Seq<char>,
) -> ForwardView {
    filtered_forward_of(
        resolved,
        verb,
        filtered(req.body, partition_terms(resolved.transform.fields(), resolved.partition)),
    )
}

/// Forwards a search or count whose body was filtered, or refuses one that could not be.
#[must_use]
pub fn forward_filtered(
    resolved: &Resolved,
    verb: &str,
    body: Result<Vec<u8>, PrepareError>,
) -> (f: Forward)
    ensures
        f@ == filtered_forward_of(resolved@, verb@, bytes_result(body)),
{
    let mut path = text::concat("/", resolved.decision.target.index.as_str());
    path.append("/");
    path.append(verb);
    forward(resolved, "POST", path, body)
}

/// The search and count path.
fn query_forward(resolved: &Resolved, ctx: &RequestCtx<'_>, verb: &str) -> (f: Forward)
    ensures
        f@ == query_forward_of(resolved@, ctx@, verb@),
        match f@ {
            ForwardView::Upstream(f) => confines(
                resolved@.transform,
                resolved@.partition,
                f.body,
            ),
            ForwardView::Immediate(_) => true,
        },
{
    let filter = read::filter_terms(
        &resolved.decision.body_transform,
        resolved.partition.as_str(),
    );
    forward_filtered(resolved, verb, read::filtered_query(ctx.body(), &filter))
}

/// The forward of a routed request.
pub open spec fn routed_forward(resolved: ResolvedView, req: PartsView) -> ForwardView {
    match req.endpoint {
        EndpointKind::IngestDoc => write_forward_of(resolved, req),
        EndpointKind::IngestBulk => forward_of(
            resolved,
            "POST"@,
            "/_bulk"@,
            bulk_body(resolved, req.body),
        ),
        EndpointKind::GetById | EndpointKind::DeleteById => by_id_forward_of(resolved, req),
        EndpointKind::Search => query_forward_of(resolved, req, "_search"@),
        EndpointKind::Count => query_forward_of(resolved, req, "_count"@),
        EndpointKind::MultiGet => forward_of(
            resolved,
            "POST"@,
            "/_mget"@,
            mget_body(resolved, req.body),
        ),
        EndpointKind::MultiSearch => forward_of(
            resolved,
            "POST"@,
            "/_msearch"@,
            msearch_body(resolved, req.body),
        ),
        _ => ForwardView::Immediate(refusal(501, "endpoint_not_supported_yet"@)),
    }
}

/// The forward of a request, given what became of routing it.
pub open spec fn prepared(req: PartsView, outcome: OutcomeView) -> ForwardView {
    match outcome {
        OutcomeView::Rejected(status, code) => ForwardView::Immediate(refusal(status, code)),
        OutcomeView::Routed(resolved) => routed_forward(resolved, req),
    }
}

/// Whether a request that is forwarded keeps to its partition: what it stores carries
/// the fields of the placement, what it searches is confined to the partition, and what
/// it addresses by id belongs to the partition.
pub open spec fn keeps_to_partition(
    resolved: ResolvedView,
    req: PartsView,
    f: PreparedView,
) -> bool {
    match req.endpoint {
        EndpointKind::IngestDoc => stamps(
            req.body,
            resolved.transform,
            resolved.partition,
            f.body,
        ) && stores_in_partition(resolved, f),
        EndpointKind::IngestBulk => items_keep_to_partition(resolved, bulk_items(req.body)->0),
        EndpointKind::GetById | EndpointKind::DeleteById => exists|id: Seq<char>|
            {
                &&& is_scoped(resolved.transform, resolved.partition, id)
                &&& f.path == #[trigger] doc_path(resolved.target.index, id) + routing_query(
                    resolved.transform.routing(resolved.partition),
                )
            },
        EndpointKind::Search | EndpointKind::Count => confines(
            resolved.transform,
            resolved.partition,
            f.body,
        ),
        EndpointKind::MultiGet => fetches_are_scoped(resolved, mget_ids(req.body)->0),
        EndpointKind::MultiSearch => searches_are_confined(
            resolved,
            msearch_queries(req.body)->0,
        ),
        _ => true,
    }
}

/// Whether a document is stored under an id of its partition, where the placement
/// constructs ids that can be told by their form.
pub open spec fn stores_in_partition(resolved: ResolvedView, f: PreparedView) -> bool {
    match resolved.transform.id_rule() {
        Some(rule) => id_frame(rule.template, resolved.partition) is Some ==> exists|id: Seq<char>|
            {
                &&& is_scoped(resolved.transform, resolved.partition, id)
                &&& f.path == #[trigger] doc_path(resolved.target.index, id) + routing_query(
                    resolved.transform.routing(resolved.partition),
                )
            },
        None => true,
    }
}

/// Whether a request, if it is forwarded, keeps to the partition it was routed for.
pub open spec fn forwards_in_partition(req: PartsView, outcome: OutcomeView) -> bool {
    match (outcome, prepared(req, outcome)) {
        (OutcomeView::Routed(resolved), ForwardView::Upstream(f)) => keeps_to_partition(
            resolved,
            req,
            f,
        ),
        _ => true,
    }
}

/// Prepares a request for forwarding, given what became of routing it. What is
/// forwarded keeps to the partition it was routed for.
#[must_use]
pub fn prepare(ctx: &RequestCtx<'_>, outcome: &RouteOutcome) -> (f: Forward)
    ensures
        f@ == prepared(ctx@, outcome@),
        forwards_in_partition(ctx@, outcome@),
{
    let resolved = match outcome {
        RouteOutcome::Rejected { status, code } => return Forward::Immediate(
            immediate(*status, code),
        ),
        RouteOutcome::Routed(resolved) => resolved,
    };
    match ctx.endpoint() {
        EndpointKind::IngestDoc => write_forward(resolved, ctx),
        EndpointKind::IngestBulk => forward(
            resolved,
            "POST",
            "/_bulk".to_owned(),
            demux::rewrite_bulk(resolved, ctx.body()),
        ),
        EndpointKind::GetById | EndpointKind::DeleteById => by_id_forward(resolved, ctx),
        EndpointKind::Search => query_forward(resolved, ctx, "_search"),
        EndpointKind::Count => query_forward(resolved, ctx, "_count"),
        EndpointKind::MultiGet => forward(
            resolved,
            "POST",
            "/_mget".to_owned(),
            demux::rewrite_mget(resolved, ctx.body()),
        ),
        EndpointKind::MultiSearch => forward(
            resolved,
            "POST",
            "/_msearch".to_owned(),
            demux::rewrite_msearch(resolved, ctx.body()),
        ),
        _ => Forward::Immediate(immediate(501, "endpoint_not_supported_yet")),
    }
}

/// The codes that a fail-closed reply may carry.
pub open spec fn is_refusal_code(code: Seq<char>) -> bool {
    ||| code == "endpoint_not_supported_yet"@
    ||| code == "stale_epoch"@
    ||| exists|err: SpiError| code == #[trigger] spi_code_of(err)
    ||| exists|kind: ErrorKind| code == #[trigger] prepare_code_of(kind)
}

/// A request that is not forwarded is answered with a code from a fixed list and
/// nothing else: no tenant value, and no part of the request, reaches the reply.
pub proof fn refusals_are_shape_only(req: PartsView, answer: Resolution, admitted: bool)
    ensures
        match prepared(req, outcome_of(req.endpoint, answer, admitted)) {
            ForwardView::Upstream(_) => true,
            ForwardView::Immediate(reply) => exists|code: Seq<char>|
                is_refusal_code(code) && reply == #[trigger] refusal(reply.status, code),
        },
{
    let outcome = outcome_of(req.endpoint, answer, admitted);
    if let ForwardView::Immediate(reply) = prepared(req, outcome) {
        let code = match outcome {
            OutcomeView::Rejected(_, code) => code,
            OutcomeView::Routed(resolved) => if reply == refusal(
                400,
                prepare_code_of(ErrorKind::Rewrite),
            ) {
                prepare_code_of(ErrorKind::Rewrite)
            } else if reply == refusal(500, prepare_code_of(ErrorKind::UnresolvedInjectedValue)) {
                prepare_code_of(ErrorKind::UnresolvedInjectedValue)
            } else {
                "endpoint_not_supported_yet"@
            },
        };
        assert(is_refusal_code(code));
        assert(reply == refusal(reply.status, code));
    }
}

/// A request is forwarded only where it was routed, and then to the placement it was
/// routed to.
pub proof fn forwards_go_to_the_placement(req: PartsView, answer: Resolution, admitted: bool)
    ensures
        match prepared(req, outcome_of(req.endpoint, answer, admitted)) {
            ForwardView::Upstream(f) => {
                &&& supported(req.endpoint)
                &&& answer is Ok
                &&& req.endpoint.writes() ==> admitted
                &&& f.cluster == answer->Ok_0.target.cluster
                &&& f.upstream_host == host_of(answer->Ok_0)
                &&& f.header_ops == answer->Ok_0.header_ops
            },
            ForwardView::Immediate(_) => true,
        },
{
}

/// The cluster and the upstream authority of a routed request, or the refusal.
pub open spec fn target_of(outcome: OutcomeView) -> Result<
    (Seq<char>, Option<Seq<char>>),
    ResponseView,
> {
    match outcome {
        OutcomeView::Rejected(status, code) => Err(refusal(status, code)),
        OutcomeView::Routed(resolved) => Ok((resolved.target.cluster, host_of(resolved))),
    }
}

/// The header phase never diverges from the body phase: wherever the body phase
/// forwards a request, the header phase has routed it to the same cluster and host.
pub proof fn header_phase_agrees_with_body_phase(
    req: PartsView,
    answer: Resolution,
    admitted: bool,
)
    ensures
        match prepared(req, outcome_of(req.endpoint, answer, admitted)) {
            ForwardView::Upstream(f) => target_of(outcome_of(req.endpoint, answer, true)) == Ok::<
                (Seq<char>, Option<Seq<char>>),
                ResponseView,
            >((f.cluster, f.upstream_host)),
            ForwardView::Immediate(_) => true,
        },
        target_of(outcome_of(req.endpoint, answer, true)) is Ok <==> supported(req.endpoint)
            && answer is Ok,
{
    forwards_go_to_the_placement(req, answer, admitted);
}

/// Just the upstream cluster of a routed request: the header-phase decision, made
/// before the body arrives.
///
/// # Errors
/// The fail-closed response of a request that is not routed.
pub fn resolve_cluster(outcome: &RouteOutcome) -> (r: Result<String, FilterResponse>)
    ensures
        match r {
            Ok(cluster) => target_of(outcome@) is Ok && target_of(outcome@)->Ok_0.0 == cluster@,
            Err(reply) => target_of(outcome@) is Err && target_of(outcome@)->Err_0 == reply@,
        },
{
    match resolve_target(outcome) {
        Ok((cluster, _)) => Ok(cluster),
        Err(reply) => Err(reply),
    }
}

/// The routing facets that are set before the body arrives: the cluster, and the
/// upstream authority where the placement names an endpoint.
///
/// # Errors
/// The fail-closed response of a request that is not routed.
pub fn resolve_target(outcome: &RouteOutcome) -> (r: Result<
    (String, Option<String>),
    FilterResponse,
>)
    ensures
        match r {
            Ok((cluster, host)) => {
                &&& target_of(outcome@) is Ok
                &&& target_of(outcome@)->Ok_0 == (cluster@, text::optional(host))
            },
            Err(reply) => target_of(outcome@) is Err && target_of(outcome@)->Err_0 == reply@,
        },
{
    match outcome {
        RouteOutcome::Rejected { status, code } => Err(immediate(*status, code)),
        RouteOutcome::Routed(resolved) => Ok(
            (
                resolved.decision.target.cluster.clone(),
                upstream_host(&resolved.decision.target),
            ),
        ),
    }
}

/// The optional `trace` field of an explanation.
pub open spec fn trace_field_of(trace: Option<Seq<char>>) -> Seq<char> {
    match trace {
        Some(id) => ",\"trace\":\""@ + id + "\""@,
        None => seq![],
    }
}

/// The trace id that a request's headers carry.
pub open spec fn trace_of(req: PartsView) -> Option<Seq<char>> {
    match header_value(req.headers, "traceparent"@) {
        Some(value) => trace_id_spec(value),
        None => None,
    }
}

/// What goes on with a request that is not refused, as one line of JSON: its endpoint,
/// and what was decided about it.
pub open spec fn route_line(req: PartsView, decision: Seq<char>) -> Seq<char> {
    "{\"endpoint\":\""@ + req.endpoint.name() + "\",\"outcome\":\"route\",\"decision\":\""@
        + decision + "\""@ + trace_field_of(trace_of(req)) + "}"@
}

/// What routing a request would come to, as one line of JSON: its endpoint, and
/// either the shape of the decision or the refusal.
pub open spec fn explanation(req: PartsView, outcome: OutcomeView) -> Seq<char> {
    match outcome {
        OutcomeView::Rejected(status, code) => "{\"endpoint\":\""@ + req.endpoint.name()
            + "\",\"outcome\":\"reject\",\"status\":"@ + decimal(status as nat) + ",\"code\":\""@
            + code + "\""@ + trace_field_of(trace_of(req)) + "}"@,
        OutcomeView::Routed(resolved) => route_line(req, shape_of(resolved)),
    }
}

/// An explanation carries no tenant value: two requests with the same endpoint and
/// the same trace id whose decisions have the same shape are explained alike.
pub proof fn explanations_are_shape_only(
    one: PartsView,
    other: PartsView,
    a: ResolvedView,
    b: ResolvedView,
)
    requires
        one.endpoint == other.endpoint,
        trace_of(one) == trace_of(other),
        shape_of(a) == shape_of(b),
    ensures
        explanation(one, OutcomeView::Routed(a)) == explanation(other, OutcomeView::Routed(b)),
{
}

/// Ends an explanation: closes its last string, and ties it to the proxy's span by the
/// trace id that the request carries.
fn end_line(ctx: &RequestCtx<'_>, line: String) -> (r: String)
    ensures
        r@ == line@ + "\""@ + trace_field_of(trace_of(ctx@)) + "}"@,
{
    let mut line = line;
    line.append("\"");
    let ghost before = line@;
    let trace = match ctx.header("traceparent") {
        Some(value) => trace_id_of(value),
        None => None,
    };
    if let Some(id) = trace {
        line.append(",\"trace\":\"");
        line.append(id);
        line.append("\"");
    }
    assert(line@ =~= before + trace_field_of(trace_of(ctx@)));
    line.append("}");
    line
}

/// Explains a request that is not refused, by what was decided about it.
#[must_use]
pub fn explain_route(ctx: &RequestCtx<'_>, decision: &str) -> (line: String)
    ensures
        line@ == route_line(ctx@, decision@),
{
    let mut line = text::concat("{\"endpoint\":\"", ctx.endpoint().as_str());
    line.append("\",\"outcome\":\"route\",\"decision\":\"");
    line.append(decision);
    end_line(ctx, line)
}

/// A shape-only routing explanation: what [`prepare`] would do with the request,
/// without forwarding it. It carries the trace id through, to tie it to the proxy's
/// span.
#[must_use]
pub fn explain(ctx: &RequestCtx<'_>, outcome: &RouteOutcome) -> (line: String)
    ensures
        line@ == explanation(ctx@, outcome@),
{
    match outcome {
        RouteOutcome::Rejected { status, code } => {
            let mut line = text::concat("{\"endpoint\":\"", ctx.endpoint().as_str());
            line.append("\",\"outcome\":\"reject\",\"status\":");
            text::push_decimal(&mut line, *status as u128);
            line.append(",\"code\":\"");
            line.append(code);
            end_line(ctx, line)
        },
        RouteOutcome::Routed(resolved) => explain_route(ctx, decision_shape(resolved).as_str()),
    }
}

/// The value of a result, where it is one.
pub open spec fn ok_bytes(r: Result<Seq<u8>, ErrorKind>) -> Option<Seq<u8>> {
    match r {
        Ok(bytes) => Some(bytes),
        Err(_) => None,
    }
}

/// The upstream response of a request in the client's view, where there is anything
/// to reshape.
pub open spec fn shaped_read(req: PartsView, answer: Resolution, upstream: Seq<u8>) -> Option<
    Seq<u8>,
> {
    match answer {
        Err(_) => None,
        Ok(resolved) => {
            let index = req.logical_index;
            match req.endpoint {
                EndpointKind::GetById => match req.doc_id {
                    Some(id) => ok_bytes(
                        reshaped(
                            upstream,
                            |doc: Json| shaped_get(doc, resolved.transform, index, id),
                        ),
                    ),
                    None => None,
                },
                EndpointKind::Search => ok_bytes(
                    reshaped(upstream, |doc: Json| shaped_search(doc, resolved, index)),
                ),
                EndpointKind::IngestBulk => ok_bytes(
                    reshaped(upstream, |doc: Json| shaped_bulk(doc, resolved, index)),
                ),
                EndpointKind::MultiGet => ok_bytes(
                    reshaped(upstream, |doc: Json| shaped_mget(doc, resolved, index)),
                ),
                EndpointKind::MultiSearch => ok_bytes(
                    reshaped(upstream, |doc: Json| shaped_msearch(doc, resolved, index)),
                ),
                _ => None,
            }
        },
    }
}

/// Reshapes an upstream response into the client's logical view, given what the
/// tenancy answered for the request. `None` when there is nothing to do: the upstream
/// body is then forwarded unchanged.
#[must_use]
pub fn shape_read_response(
    ctx: &RequestCtx<'_>,
    answer: &Result<Resolved, SpiError>,
    upstream_body: &[u8],
) -> (r: Option<Vec<u8>>)
    ensures
        match r {
            Some(body) => shaped_read(ctx@, resolution(*answer), upstream_body@) == Some(body@),
            None => shaped_read(ctx@, resolution(*answer), upstream_body@) is None,
        },
{
    let resolved = match answer {
        Ok(resolved) => resolved,
        Err(_) => return None,
    };
    let index = ctx.logical_index();
    let shaped = match ctx.endpoint() {
        EndpointKind::GetById => match ctx.doc_id() {
            Some(id) => response::shape_get_response(resolved, index, id, upstream_body),
            None => return None,
        },
        EndpointKind::Search => response::shape_search_response(resolved, index, upstream_body),
        EndpointKind::IngestBulk => response::shape_bulk_response(resolved, index, upstream_body),
        EndpointKind::MultiGet => response::shape_mget_response(resolved, index, upstream_body),
        EndpointKind::MultiSearch => response::shape_msearch_response(
            resolved,
            index,
            upstream_body,
        ),
        _ => return None,
    };
    match shaped {
        Ok(body) => Some(body),
        Err(_) => None,
    }
}

/// The endpoints that go upstream are these eight; every other one is refused with `501`
/// whatever the tenancy says.
pub proof fn handled_endpoints_are_these(kind: EndpointKind, answer: Resolution, admitted: bool)
    ensures
        match kind {
            EndpointKind::DeleteByQuery | EndpointKind::Cursor | EndpointKind::Admin
            | EndpointKind::Unknown => outcome_of(kind, answer, admitted)
                == OutcomeView::Rejected(501, "endpoint_not_supported_yet"@),
            EndpointKind::IngestDoc | EndpointKind::IngestBulk | EndpointKind::DeleteById =>
            match answer {
                Ok(resolved) => outcome_of(kind, answer, admitted) == if admitted {
                    OutcomeView::Routed(resolved)
                } else {
                    OutcomeView::Rejected(409, "stale_epoch"@)
                },
                Err(_) => outcome_of(kind, answer, admitted) is Rejected,
            },
            EndpointKind::GetById | EndpointKind::Search | EndpointKind::Count
            | EndpointKind::MultiGet | EndpointKind::MultiSearch => match answer {
                Ok(resolved) => outcome_of(kind, answer, admitted) == OutcomeView::Routed(resolved),
                Err(_) => outcome_of(kind, answer, admitted) is Rejected,
            },
        },
{
}

/// A request that does not resolve is refused with the status and the code of its error.
pub proof fn unresolved_requests_have_their_status_and_code(
    kind: EndpointKind,
    err: SpiError,
    admitted: bool,
)
    requires
        outcome_of(kind, Err(err), admitted) != OutcomeView::Rejected(
            501,
            "endpoint_not_supported_yet"@,
        ),
    ensures
        outcome_of(kind, Err(err), admitted) == match err {
            SpiError::PartitionUnresolved => OutcomeView::Rejected(400, "partition_unresolved"@),
            SpiError::PrincipalAttrMissing => OutcomeView::Rejected(
                400,
                "principal_attr_missing"@,
            ),
            SpiError::HeaderMissing => OutcomeView::Rejected(400, "header_missing"@),
            SpiError::UnsupportedEndpoint(_) => OutcomeView::Rejected(
                501,
                "unsupported_endpoint"@,
            ),
            SpiError::PlacementMissing => OutcomeView::Rejected(503, "placement_missing"@),
            SpiError::PlacementBackend { .. } => OutcomeView::Rejected(503, "placement_backend"@),
            SpiError::IdRuleMissingPartition => OutcomeView::Rejected(
                500,
                "id_rule_missing_partition"@,
            ),
            SpiError::Other => OutcomeView::Rejected(400, "routing_error"@),
        },
{
}

/// A refusal is JSON and says its code, and a body that cannot be rewritten is the
/// client's fault, while an injected value that nobody resolved is not.
pub proof fn refusals_say_their_code(
    resolved: ResolvedView,
    status: u16,
    code: Seq<char>,
    method: Seq<char>,
    path: Seq<char>,
)
    ensures
        refusal(status, code) == (ResponseView {
            status,
            headers: seq![("content-type"@, "application/json"@)],
            body: vstd::utf8::encode_utf8("{\"error\":\""@ + code + "\"}"@),
        }),
        forward_of(resolved, method, path, Err(ErrorKind::Rewrite)) == ForwardView::Immediate(
            refusal(400, "body_rewrite_failed"@),
        ),
        forward_of(resolved, method, path, Err(ErrorKind::UnresolvedInjectedValue))
            == ForwardView::Immediate(refusal(500, "unresolved_injected_value"@)),
{
}

/// The query that a routing value makes.
pub open spec fn is_routing_query(
    transform: TransformView,
    partition: Seq<char>,
    query: Seq<char>,
) -> bool {
    match transform.id_rule() {
        Some(rule) => if rule.set_routing {
            query == "?routing="@ + encoded(partition)
        } else {
            query.len() == 0
        },
        None => query.len() == 0,
    }
}

/// A document is stored where its id says: with `PUT` under the constructed id, or else
/// the client's, percent-encoded behind the physical index, and with `POST` to the index
/// where there is no id. The routing value goes with it, and the body is the rewritten
/// one.
pub proof fn documents_are_stored_under_their_id(resolved: ResolvedView, req: PartsView)
    requires
        req.endpoint is IngestDoc,
    ensures
        match (
            transformed(req.body, resolved.transform, resolved.partition),
            routed_forward(resolved, req),
        ) {
            (Ok(t), ForwardView::Upstream(f)) => {
                let id = if t.id is Some {
                    t.id
                } else {
                    req.doc_id
                };
                &&& f.body == t.body
                &&& exists|query: Seq<char>|
                    {
                        &&& #[trigger] is_routing_query(
                            resolved.transform,
                            resolved.partition,
                            query,
                        )
                        &&& match id {
                            Some(id) => f.method == "PUT"@ && f.path == "/"@
                                + resolved.target.index + "/_doc/"@ + encoded(id) + query,
                            None => f.method == "POST"@ && f.path == "/"@ + resolved.target.index
                                + "/_doc"@ + query,
                        }
                    }
            },
            (Err(kind), ForwardView::Immediate(reply)) => reply.status == if kind is Rewrite {
                400u16
            } else {
                500u16
            },
            _ => false,
        },
{
    if let Ok(t) = transformed(req.body, resolved.transform, resolved.partition) {
        let query = routing_query(t.routing);
        assert(is_routing_query(resolved.transform, resolved.partition, query));
    }
}

/// A document that is read or deleted by id is addressed by the physical id that the
/// client's stands for, percent-encoded behind the physical index, with the client's own
/// method, the routing value and no body.
pub proof fn documents_are_addressed_by_their_physical_id(resolved: ResolvedView, req: PartsView)
    requires
        req.endpoint is GetById || req.endpoint is DeleteById,
        req.doc_id is Some,
    ensures
        match routed_forward(resolved, req) {
            ForwardView::Upstream(f) => {
                &&& f.body.len() == 0
                &&& f.method == match req.method {
                    HttpMethod::Get => "GET"@,
                    HttpMethod::Put => "PUT"@,
                    HttpMethod::Post => "POST"@,
                    HttpMethod::Delete => "DELETE"@,
                    HttpMethod::Head => "HEAD"@,
                }
                &&& exists|id: Seq<char>, query: Seq<char>|
                    {
                        &&& unmapped_id(resolved.transform, resolved.partition, id)
                            == req.doc_id->0
                        &&& resolved.transform.id_rule() is None ==> id == req.doc_id->0
                        &&& is_scoped(resolved.transform, resolved.partition, id)
                        &&& #[trigger] is_routing_query(
                            resolved.transform,
                            resolved.partition,
                            query,
                        )
                        &&& f.path == "/"@ + resolved.target.index + "/_doc/"@ + #[trigger] encoded(
                            id,
                        ) + query
                    }
            },
            ForwardView::Immediate(reply) => {
                &&& reply == refusal(400, "body_rewrite_failed"@)
                &&& match resolved.transform.id_rule() {
                    Some(rule) => id_frame(rule.template, resolved.partition) is None,
                    None => false,
                }
            },
        },
{
    let logical = req.doc_id->0;
    if let Ok(id) = mapped_id(resolved.transform, resolved.partition, logical) {
        ids_round_trip(resolved.transform, resolved.partition, logical);
        mapped_ids_are_scoped(resolved.transform, resolved.partition, logical);
        let query = routing_query(resolved.transform.routing(resolved.partition));
        assert(is_routing_query(resolved.transform, resolved.partition, query));
        let f = routed_forward(resolved, req)->Upstream_0;
        assert(f.path == "/"@ + resolved.target.index + "/_doc/"@ + encoded(id) + query);
    }
}

/// A search and a count go to the physical index with `POST`, under their own verb, and
/// requests that carry many operations go to the cluster with `POST`, under theirs; each
/// with its own rewritten body.
pub proof fn other_requests_go_to_their_own_endpoint(resolved: ResolvedView, req: PartsView)
    ensures
        match routed_forward(resolved, req) {
            ForwardView::Upstream(f) => match req.endpoint {
                EndpointKind::Search => {
                    &&& f.method == "POST"@
                    &&& f.path == "/"@ + resolved.target.index + "/"@ + "_search"@
                    &&& filtered(
                        req.body,
                        partition_terms(resolved.transform.fields(), resolved.partition),
                    ) == Ok::<Seq<u8>, ErrorKind>(f.body)
                },
                EndpointKind::Count => {
                    &&& f.method == "POST"@
                    &&& f.path == "/"@ + resolved.target.index + "/"@ + "_count"@
                    &&& filtered(
                        req.body,
                        partition_terms(resolved.transform.fields(), resolved.partition),
                    ) == Ok::<Seq<u8>, ErrorKind>(f.body)
                },
                EndpointKind::IngestBulk => {
                    &&& f.method == "POST"@
                    &&& f.path == "/_bulk"@
                    &&& bulk_items(req.body) is Some
                    &&& bulk_lines(resolved, bulk_items(req.body)->0) == Ok::<Seq<u8>, ErrorKind>(
                        f.body,
                    )
                },
                EndpointKind::MultiGet => {
                    &&& f.method == "POST"@
                    &&& f.path == "/_mget"@
                    &&& mget_ids(req.body) is Some
                    &&& mget_document(resolved, mget_ids(req.body)->0) is Ok
                    &&& f.body == serialized(mget_document(resolved, mget_ids(req.body)->0)->Ok_0)
                },
                EndpointKind::MultiSearch => {
                    &&& f.method == "POST"@
                    &&& f.path == "/_msearch"@
                    &&& msearch_queries(req.body) is Some
                    &&& msearch_lines(resolved, msearch_queries(req.body)->0) == Ok::<
                        Seq<u8>,
                        ErrorKind,
                    >(f.body)
                },
                EndpointKind::IngestDoc | EndpointKind::GetById | EndpointKind::DeleteById => true,
                _ => false,
            },
            ForwardView::Immediate(reply) => match req.endpoint {
                EndpointKind::DeleteByQuery | EndpointKind::Cursor | EndpointKind::Admin
                | EndpointKind::Unknown => reply == refusal(501, "endpoint_not_supported_yet"@),
                EndpointKind::Search | EndpointKind::Count => filtered(
                    req.body,
                    partition_terms(resolved.transform.fields(), resolved.partition),
                ) is Err && reply == refusal(400, "body_rewrite_failed"@),
                EndpointKind::IngestBulk => {
                    &&& reply.status == 400 || reply.status == 500
                    &&& bulk_items(req.body) is None || bulk_lines(
                        resolved,
                        bulk_items(req.body)->0,
                    ) is Err
                },
                EndpointKind::MultiGet => {
                    &&& reply.status == 400
                    &&& mget_ids(req.body) is None || mget_document(
                        resolved,
                        mget_ids(req.body)->0,
                    ) is Err
                },
                EndpointKind::MultiSearch => {
                    &&& reply.status == 400
                    &&& msearch_queries(req.body) is None || msearch_lines(
                        resolved,
                        msearch_queries(req.body)->0,
                    ) is Err
                },
                _ => reply.status == 400 || reply.status == 500,
            },
        },
{
    let terms = partition_terms(resolved.transform.fields(), resolved.partition);
    searches_are_wrapped_as_they_came(req.body, terms);
    if let Some(ids) = mget_ids(req.body) {
        fetches_are_refused_only_by_the_id_rule(resolved, req.body, ids);
    }
    if let Some(queries) = msearch_queries(req.body) {
        searches_are_refused_only_by_their_queries(resolved, req.body, queries);
    }
}

/// Every forward names the cluster and the host of its placement, and carries its header
/// mutations.
pub proof fn forwards_name_their_placement(resolved: ResolvedView, req: PartsView)
    ensures
        match routed_forward(resolved, req) {
            ForwardView::Upstream(f) => {
                &&& f.cluster == resolved.target.cluster
                &&& f.header_ops == resolved.header_ops
                &&& f.upstream_host == match resolved.target.endpoint {
                    Some(endpoint) => authority_spec(endpoint),
                    None => None,
                }
            },
            ForwardView::Immediate(_) => true,
        },
{
}

/// What is said of a decision is its transform, its phase and whether it isolates.
pub proof fn decisions_are_told_by_their_shape(resolved: ResolvedView)
    ensures
        shape_of(resolved) == "transform="@ + match resolved.transform {
            TransformView::Unchanged => "none"@,
            TransformView::Inject(_) => "inject"@,
            TransformView::ConstructId(_) => "construct_id"@,
            TransformView::Both { .. } => "both"@,
        } + ";migration="@ + resolved.migration.name() + ";isolation="@ + match resolved.transform {
            TransformView::Inject(_) | TransformView::Both { .. } => "on"@,
            _ => "off"@,
        },
{
}

/// An explanation names the endpoint and either the decision or the refusal, and carries
/// the trace id where the request has one.
pub proof fn explanations_name_endpoint_and_outcome(
    req: PartsView,
    status: u16,
    code: Seq<char>,
    resolved: ResolvedView,
)
    ensures
        ({
            let trace = match header_value(req.headers, "traceparent"@) {
                Some(value) => match trace_id_spec(value) {
                    Some(id) => ",\"trace\":\""@ + id + "\""@,
                    None => seq![],
                },
                None => seq![],
            };
            &&& explanation(req, OutcomeView::Routed(resolved)) == "{\"endpoint\":\""@
                + req.endpoint.name() + "\",\"outcome\":\"route\",\"decision\":\""@ + shape_of(
                resolved,
            ) + "\""@ + trace + "}"@
            &&& explanation(req, OutcomeView::Rejected(status, code)) == "{\"endpoint\":\""@
                + req.endpoint.name() + "\",\"outcome\":\"reject\",\"status\":"@ + decimal(
                status as nat,
            ) + ",\"code\":\""@ + code + "\""@ + trace + "}"@
        }),
{
}

/// Only the responses of reads and of bulk writes are reshaped, each in its own way, and
/// only where the request resolved and the response is JSON; every other response is left
/// alone.
pub proof fn responses_are_reshaped_by_endpoint(
    req: PartsView,
    answer: Resolution,
    upstream: Seq<u8>,
)
    ensures
        match (answer, parsed(upstream)) {
            (Ok(resolved), Some(doc)) => shaped_read(req, answer, upstream) == match req.endpoint {
                EndpointKind::GetById => match req.doc_id {
                    Some(id) => Some(
                        serialized(shaped_get(doc, resolved.transform, req.logical_index, id)),
                    ),
                    None => None,
                },
                EndpointKind::Search => Some(
                    serialized(shaped_search(doc, resolved, req.logical_index)),
                ),
                EndpointKind::MultiGet => Some(
                    serialized(shaped_mget(doc, resolved, req.logical_index)),
                ),
                EndpointKind::MultiSearch => Some(
                    serialized(shaped_msearch(doc, resolved, req.logical_index)),
                ),
                EndpointKind::IngestBulk => Some(
                    serialized(shaped_bulk(doc, resolved, req.logical_index)),
                ),
                _ => None,
            },
            _ => shaped_read(req, answer, upstream) is None,
        },
{
}

} // verus!
