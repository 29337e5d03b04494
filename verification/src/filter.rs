//! The filter: one request from start to finish, apart from waiting.
//!
//! A [`Filter`] adapts a request, applies its own policies, and says what to do: send
//! a reply, let the request pass, or route it. Routing needs the tenancy, so it is
//! done in steps: the caller asks the router the filter holds and hands the outcome
//! back. The effects go through [`EnvoyActions`], so the filter knows nothing of how
//! they are carried out.
use vstd::prelude::*;
use vstd::string::StrSliceExecFns;
use vstd::string::StringExecFns;
use crate::abi::header_value;
use crate::abi::replace_header;
use crate::abi::replaced_headers_are_found;
use crate::abi::without_header;
use crate::abi::FilterRequest;
use crate::abi::HeaderView;
use crate::abi::RequestView;
use crate::actions::after_all;
use crate::actions::apply_forward;
use crate::actions::forward_decision;
use crate::actions::forward_effects;
use crate::actions::lemma_after_push;
use crate::actions::reply_effects;
use crate::actions::Effect;
use crate::actions::EnvoyActions;
use crate::actions::FilterDecision;
use crate::adapter::parts_of;
use crate::adapter::PartsView;
use crate::adapter::RequestParts;
use crate::config::ConfigView;
use crate::config::FilterConfig;
use crate::decision::resolution;
use crate::decision::Resolution;
use crate::decision::Resolved;
use crate::decision::ResolvedView;
use crate::decision::SpiError;
use crate::reference::ReferenceTenancy;
use crate::reference::TenancyView;
use crate::route;
use crate::route::explanation;
use crate::route::forwards_in_partition;
use crate::route::host_of;
use crate::route::outcome_of;
use crate::route::prepared;
use crate::route::refusal;
use crate::route::route_line;
use crate::route::routed_forward;
use crate::route::shape_of;
use crate::route::shaped_read;
use crate::route::target_of;
use crate::route::trace_field_of;
use crate::route::trace_of;
use crate::route::OutcomeView;
use crate::route::RouteOutcome;
use crate::text;
use crate::text::before;
use crate::text::cut;
use crate::text::string_views;

verus! {

/// The request header that names the upstream cluster the placement chose. The
/// proxy's routes match on it.
pub const CLUSTER_HEADER: &'static str = "x-evoxy-cluster";

/// A filter over a tenancy router. The router is whatever the caller asks to resolve
/// a request; the filter only carries it.
#[derive(Debug, Clone)]
pub struct Filter<R> {
    router: R,
    require_mtls_for_mutation: bool,
    passthrough_indices: Vec<String>,
    path_partition_header: Option<String>,
}

/// The policies of a filter.
#[verifier::ext_equal]
pub struct FilterView {
    /// Whether a write needs a validated client identity.
    pub require_mtls: bool,
    /// The logical indices that bypass tenancy.
    pub passthrough: Seq<Seq<char>>,
    /// The header that the first path segment is moved to, if it names the tenant.
    pub path_header: Option<Seq<char>>,
}

impl<R> Filter<R> {
    /// The router the filter carries.
    pub closed spec fn carried(&self) -> R {
        self.router
    }
}

impl<R> View for Filter<R> {
    type V = FilterView;

    closed spec fn view(&self) -> FilterView {
        FilterView {
            require_mtls: self.require_mtls_for_mutation,
            passthrough: string_views(self.passthrough_indices@),
            path_header: text::optional(self.path_partition_header),
        }
    }
}

/// A target split into its first path segment and the rest, with the query kept:
/// `None` where there is no leading segment with a remainder behind it.
pub open spec fn leading_split(target: Seq<char>) -> Option<(Seq<char>, Seq<char>)> {
    let path = before(target, '?');
    let relative = if path.len() > 0 && path[0] == '/' {
        path.skip(1)
    } else {
        path
    };
    match cut(relative, '/') {
        None => None,
        Some((tenant, rest)) => if tenant.len() == 0 {
            None
        } else {
            Some(
                (
                    tenant,
                    seq!['/'] + rest + match cut(target, '?') {
                        Some((_, query)) => seq!['?'] + query,
                        None => seq![],
                    },
                ),
            )
        },
    }
}

/// Splitting off the tenant loses nothing: an absolute target is a slash, the tenant,
/// and the rest.
pub proof fn leading_split_loses_nothing(target: Seq<char>)
    requires
        target.len() > 0,
        target[0] == '/',
        leading_split(target) is Some,
    ensures
        match leading_split(target) {
            Some((tenant, rest)) => {
                &&& target == seq!['/'] + tenant + rest
                &&& tenant.len() > 0
                &&& !tenant.contains('/')
            },
            None => false,
        },
{
    text::lemma_find(target, '?');
    let at = text::find(target, '?');
    let path = before(target, '?');
    assert(path[0] == '/');
    let relative = path.skip(1);
    text::lemma_find(relative, '/');
    let slash = text::find(relative, '/');
    let (tenant, rest) = cut(relative, '/')->0;
    assert(relative =~= tenant + seq!['/'] + rest);
    assert(path =~= seq!['/'] + relative);
    let query = match cut(target, '?') {
        Some((_, query)) => seq!['?'] + query,
        None => seq![],
    };
    assert(target =~= path + query);
    assert(target =~= seq!['/'] + tenant + (seq!['/'] + rest + query));
}

/// Splits `/tenant/rest...` into the tenant and `/rest...`, preserving any `?query`.
/// `None` when there is no leading segment plus a remainder to route on.
#[must_use]
pub fn split_leading_segment(path_and_query: &str) -> (r: Option<(String, String)>)
    ensures
        match r {
            Some((tenant, rest)) => leading_split(path_and_query@) == Some((tenant@, rest@)),
            None => leading_split(path_and_query@) is None,
        },
{
    let (path, query) = match text::split_once(path_and_query, '?') {
        Some((path, query)) => (path, Some(query)),
        None => {
            proof {
                text::lemma_find(path_and_query@, '?');
                assert(before(path_and_query@, '?') =~= path_and_query@);
            }
            (path_and_query, None)
        },
    };
    let len: usize = path.unicode_len();
    let relative = if len > 0 && path.get_char(0) == '/' {
        let relative = path.substring_char(1, len);
        assert(relative@ =~= path@.skip(1));
        relative
    } else {
        path
    };
    match text::split_once(relative, '/') {
        None => None,
        Some((tenant, rest)) => {
            if tenant.is_empty() {
                return None;
            }
            proof {
                reveal_strlit("/");
                reveal_strlit("?");
                assert("/"@ =~= seq!['/']);
                assert("?"@ =~= seq!['?']);
            }
            let mut rewritten = text::concat("/", rest);
            let ghost base = rewritten@;
            if let Some(query) = query {
                rewritten.append("?");
                rewritten.append(query);
                assert(rewritten@ =~= base + (seq!['?'] + query@));
            } else {
                assert(base + Seq::<char>::empty() =~= base);
            }
            Some((tenant.to_owned(), rewritten))
        },
    }
}

/// The tenant that the path of a target names.
pub open spec fn path_tenant(target: Seq<char>) -> Option<Seq<char>> {
    match leading_split(target) {
        Some((tenant, _)) => Some(tenant),
        None => None,
    }
}

/// The request with its tenant moved from the path into the configured header, where
/// path partitioning is on and the path names one. What the client sent under that name
/// is dropped.
pub open spec fn rewritten_for_path(f: FilterView, req: RequestView) -> Option<RequestView> {
    match f.path_header {
        None => None,
        Some(header) => match leading_split(req.path_and_query) {
            None => None,
            Some((tenant, rest)) => Some(
                RequestView {
                    path_and_query: rest,
                    headers: without_header(req.headers, header).push((header, tenant)),
                    ..req
                },
            ),
        },
    }
}

/// The request that is adapted: the rewritten one, or the one that came.
pub open spec fn effective(f: FilterView, req: RequestView) -> RequestView {
    match rewritten_for_path(f, req) {
        Some(rewritten) => rewritten,
        None => req,
    }
}

/// The proxy's own id of a request.
pub open spec fn request_id_of(req: RequestView) -> Seq<char> {
    match req.header("x-request-id"@) {
        Some(id) => id,
        None => seq![],
    }
}

/// The parts that a request is adapted to, where its method is handled.
pub open spec fn adapted(f: FilterView, req: RequestView) -> Option<PartsView> {
    parts_of(effective(f, req), request_id_of(effective(f, req)))
}

/// A tenant in the path is the tenant: whatever headers the client sends, the request
/// that is adapted carries the first path segment under the configured name.
pub proof fn path_tenants_ignore_headers(
    f: FilterView,
    req: RequestView,
    headers: Seq<HeaderView>,
)
    requires
        f.path_header is Some,
        path_tenant(req.path_and_query) is Some,
    ensures
        ({
            let sent = RequestView { headers, ..req };
            let tenant = path_tenant(req.path_and_query);
            &&& header_value(effective(f, sent).headers, f.path_header->0) == tenant
            &&& match adapted(f, sent) {
                Some(parts) => header_value(parts.headers, f.path_header->0) == tenant,
                None => true,
            }
        }),
{
    let tenant = path_tenant(req.path_and_query)->0;
    replaced_headers_are_found(headers, f.path_header->0, tenant);
}

/// What a filter does with a request before the tenancy is asked.
pub enum BeginView {
    /// It refuses it, with a status and a code.
    Refuse(u16, Seq<char>),
    /// It lets the request pass, under another path where it has been rewritten.
    Pass(Option<Seq<char>>),
    /// It has the request routed.
    Route(PartsView),
}

/// Where a request goes that is adapted to `parts`.
pub open spec fn pass_or_route(f: FilterView, req: RequestView, parts: PartsView) -> BeginView {
    if f.passthrough.contains(parts.logical_index) {
        BeginView::Pass(
            match rewritten_for_path(f, req) {
                Some(rewritten) => Some(rewritten.path_and_query),
                None => None,
            },
        )
    } else {
        BeginView::Route(parts)
    }
}

/// What handling a request starts with: a method that is not handled is refused; so is
/// a write without an identity, where one is required; an index that bypasses tenancy
/// passes; everything else is routed.
pub open spec fn begin(f: FilterView, req: RequestView) -> BeginView {
    match adapted(f, req) {
        None => BeginView::Refuse(400, "unsupported_method"@),
        Some(parts) => if f.require_mtls && parts.endpoint.writes()
            && !req.identity.presented {
            BeginView::Refuse(403, "mtls_required_for_mutation"@)
        } else {
            pass_or_route(f, req, parts)
        },
    }
}

/// What the header phase starts with: as [`begin`], without the identity policy.
pub open spec fn begin_headers(f: FilterView, req: RequestView) -> BeginView {
    match adapted(f, req) {
        None => BeginView::Refuse(400, "unsupported_method"@),
        Some(parts) => pass_or_route(f, req, parts),
    }
}

/// The effects of what was decided before the tenancy was asked.
pub open spec fn begin_effects(b: BeginView) -> Seq<Effect> {
    match b {
        BeginView::Refuse(status, code) => reply_effects(refusal(status, code)),
        BeginView::Pass(Some(path)) => seq![Effect::Path(path)],
        BeginView::Pass(None) => seq![],
        BeginView::Route(_) => seq![],
    }
}

/// What the proxy is told about what was decided before the tenancy was asked.
pub open spec fn begin_decision(b: BeginView) -> FilterDecision {
    match b {
        BeginView::Refuse(_, _) => FilterDecision::StoppedWithLocalReply,
        _ => FilterDecision::ContinueUpstream,
    }
}

/// The effects of handling a request, given what the tenancy says about it.
pub open spec fn handle_effects(
    f: FilterView,
    req: RequestView,
    answer: Resolution,
    admitted: bool,
) -> Seq<Effect> {
    match begin(f, req) {
        BeginView::Route(parts) => forward_effects(
            prepared(parts, outcome_of(parts.endpoint, answer, admitted)),
        ),
        done => begin_effects(done),
    }
}

/// What the proxy is told once a request was handled.
pub open spec fn handle_decision(
    f: FilterView,
    req: RequestView,
    answer: Resolution,
    admitted: bool,
) -> FilterDecision {
    match begin(f, req) {
        BeginView::Route(parts) => forward_decision(
            prepared(parts, outcome_of(parts.endpoint, answer, admitted)),
        ),
        done => begin_decision(done),
    }
}

/// Where an identity is required, no write without one goes on: whatever the tenancy
/// says, the request is answered with `403` and never routed.
pub proof fn anonymous_writes_are_refused(
    f: FilterView,
    req: RequestView,
    answer: Resolution,
    admitted: bool,
)
    requires
        f.require_mtls,
        !req.identity.presented,
        adapted(f, req) is Some,
        adapted(f, req)->0.endpoint.writes(),
    ensures
        handle_decision(f, req, answer, admitted) == FilterDecision::StoppedWithLocalReply,
        handle_effects(f, req, answer, admitted) == reply_effects(
            refusal(403, "mtls_required_for_mutation"@),
        ),
{
}

/// The identity policy is for writes only: with it and without it, a request that is
/// no write is handled alike.
pub proof fn reads_need_no_identity(
    f: FilterView,
    req: RequestView,
    answer: Resolution,
    admitted: bool,
)
    requires
        match adapted(f, req) {
            Some(parts) => !parts.endpoint.writes(),
            None => true,
        },
    ensures
        handle_effects(FilterView { require_mtls: true, ..f }, req, answer, admitted)
            == handle_effects(FilterView { require_mtls: false, ..f }, req, answer, admitted),
        handle_decision(FilterView { require_mtls: true, ..f }, req, answer, admitted)
            == handle_decision(FilterView { require_mtls: false, ..f }, req, answer, admitted),
{
    let on = FilterView { require_mtls: true, ..f };
    let off = FilterView { require_mtls: false, ..f };
    assert(effective(on, req) == effective(f, req));
    assert(effective(off, req) == effective(f, req));
}

/// A request of an index that bypasses tenancy is forwarded with nothing but, at the
/// most, its path changed, whatever the tenancy would have said; and the tenancy is not
/// asked about its response either.
pub proof fn passthrough_is_left_alone(
    f: FilterView,
    req: RequestView,
    answer: Resolution,
    admitted: bool,
)
    requires
        begin(f, req) is Pass,
    ensures
        tenant_parts(f, req) is None,
        handle_decision(f, req, answer, admitted) == FilterDecision::ContinueUpstream,
        f.path_header is None ==> handle_effects(f, req, answer, admitted) == Seq::<Effect>::empty(),
        forall|i: int|
            0 <= i < handle_effects(f, req, answer, admitted).len() ==> (
            #[trigger] handle_effects(f, req, answer, admitted)[i]) is Path,
{
}

/// The effects of the header phase, given what the tenancy says about the request.
pub open spec fn target_effects(outcome: OutcomeView) -> Seq<Effect> {
    match target_of(outcome) {
        Ok((cluster, Some(host))) => seq![Effect::Cluster(cluster), Effect::Host(host)],
        Ok((cluster, None)) => seq![Effect::Cluster(cluster)],
        Err(reply) => reply_effects(reply),
    }
}

/// What the header phase tells the proxy.
pub open spec fn target_decision(outcome: OutcomeView) -> FilterDecision {
    match outcome {
        OutcomeView::Routed(_) => FilterDecision::ContinueUpstream,
        OutcomeView::Rejected(_, _) => FilterDecision::StoppedWithLocalReply,
    }
}

/// How far handling a request has got.
#[derive(Debug, Clone)]
pub enum HandleStep {
    /// It is done.
    Done(FilterDecision),
    /// The request is to be routed.
    Route(RequestParts),
}

/// How far an explanation has got.
#[derive(Debug, Clone)]
pub enum ExplainStep {
    /// It is done.
    Done(String),
    /// The request is to be routed.
    Route(RequestParts),
}

/// What was decided before the tenancy is asked.
enum Begin {
    /// A refusal, of a request that could be adapted or not.
    Refuse(u16, &'static str, Option<RequestParts>),
    /// A request that passes.
    Pass(Option<String>, RequestParts),
    /// A request to be routed.
    Route(RequestParts),
}

impl Begin {
    spec fn seen(self) -> BeginView {
        match self {
            Begin::Refuse(status, code, _) => BeginView::Refuse(status, code@),
            Begin::Pass(path, _) => BeginView::Pass(text::optional(path)),
            Begin::Route(parts) => BeginView::Route(parts@),
        }
    }

    spec fn parts(self) -> Option<PartsView> {
        match self {
            Begin::Refuse(_, _, Some(parts)) => Some(parts@),
            Begin::Refuse(_, _, None) => None,
            Begin::Pass(_, parts) => Some(parts@),
            Begin::Route(parts) => Some(parts@),
        }
    }
}

/// The parts of a request that its tenancy is to be asked about once more, when its
/// response is shaped or its decision is reported: none for a method that is not
/// handled, and none for an index that bypasses tenancy.
pub open spec fn tenant_parts(f: FilterView, req: RequestView) -> Option<PartsView> {
    match parts_of(effective(f, req), seq![]) {
        Some(parts) => if f.passthrough.contains(parts.logical_index) {
            None
        } else {
            Some(parts)
        },
        None => None,
    }
}

/// The shape of a request's decision, with the trace id that its headers carry.
pub open spec fn traced_shape(f: FilterView, req: RequestView, answer: Resolution) -> Option<
    Seq<char>,
> {
    match (tenant_parts(f, req), answer) {
        (Some(_), Ok(resolved)) => Some(
            shape_of(resolved) + match req.trace_id() {
                Some(trace) => ";trace="@ + trace,
                None => seq![],
            },
        ),
        _ => None,
    }
}

/// The explanation of a request whose method is not handled.
pub open spec fn unsupported_explanation() -> Seq<char> {
    "{\"outcome\":\"reject\",\"status\":400,\"code\":\"unsupported_method\"}"@
}

/// Whether a request is a write. One that cannot be adapted is not.
pub open spec fn request_writes(f: FilterView, req: RequestView) -> bool {
    match adapted(f, req) {
        Some(parts) => parts.endpoint.writes(),
        None => false,
    }
}

/// What becomes of a request, apart from whether its body can be rewritten.
pub enum Fate {
    /// It is refused, with a status and a code.
    Refused(u16, Seq<char>),
    /// It passes by the tenancy.
    Passed,
    /// It is routed.
    Routed(ResolvedView),
}

/// What becomes of a request, given what the tenancy says about it.
pub open spec fn fate(
    f: FilterView,
    req: RequestView,
    answer: Resolution,
    admitted: bool,
) -> Fate {
    match begin(f, req) {
        BeginView::Refuse(status, code) => Fate::Refused(status, code),
        BeginView::Pass(_) => Fate::Passed,
        BeginView::Route(parts) => match outcome_of(parts.endpoint, answer, admitted) {
            OutcomeView::Rejected(status, code) => Fate::Refused(status, code),
            OutcomeView::Routed(resolved) => Fate::Routed(resolved),
        },
    }
}

/// The explanation of a request that is adapted to `parts`, where it can be adapted.
pub open spec fn explanation_of(parts: Option<PartsView>, fate: Fate) -> Seq<char> {
    match parts {
        None => unsupported_explanation(),
        Some(parts) => match fate {
            Fate::Refused(status, code) => explanation(
                parts,
                OutcomeView::Rejected(status, code),
            ),
            Fate::Passed => route_line(parts, "passthrough"@),
            Fate::Routed(resolved) => explanation(parts, OutcomeView::Routed(resolved)),
        },
    }
}

/// The explanation of a request, given what the tenancy says about it.
pub open spec fn explained(
    f: FilterView,
    req: RequestView,
    answer: Resolution,
    admitted: bool,
) -> Seq<char> {
    explanation_of(adapted(f, req), fate(f, req, answer, admitted))
}

/// The explanation of a request that is decided without the tenancy.
pub open spec fn explained_unasked(f: FilterView, req: RequestView) -> Option<Seq<char>> {
    match begin(f, req) {
        BeginView::Refuse(status, code) => Some(
            explanation_of(adapted(f, req), Fate::Refused(status, code)),
        ),
        BeginView::Pass(_) => Some(explanation_of(adapted(f, req), Fate::Passed)),
        BeginView::Route(_) => None,
    }
}

/// An explanation tells what handling the request comes to: a request that it calls
/// refused is answered with the very status and code, one that it calls passed goes on
/// unrouted, and one that it calls routed is forwarded for the decision it shows, unless
/// its body cannot be rewritten.
pub proof fn explanations_agree_with_handling(
    f: FilterView,
    req: RequestView,
    answer: Resolution,
    admitted: bool,
)
    ensures
        match fate(f, req, answer, admitted) {
            Fate::Refused(status, code) => {
                &&& handle_decision(f, req, answer, admitted)
                    == FilterDecision::StoppedWithLocalReply
                &&& handle_effects(f, req, answer, admitted) == reply_effects(
                    refusal(status, code),
                )
            },
            Fate::Passed => {
                &&& handle_decision(f, req, answer, admitted) == FilterDecision::ContinueUpstream
                &&& begin(f, req) is Pass
            },
            Fate::Routed(resolved) => {
                &&& adapted(f, req) is Some
                &&& answer == Ok::<ResolvedView, SpiError>(resolved)
                &&& handle_effects(f, req, answer, admitted) == forward_effects(
                    routed_forward(resolved, adapted(f, req)->0),
                )
                &&& handle_decision(f, req, answer, admitted) == forward_decision(
                    routed_forward(resolved, adapted(f, req)->0),
                )
            },
        },
{
}

impl<R> Filter<R> {
    /// A filter over a router, with no policy of its own.
    #[must_use]
    pub fn new(router: R) -> (r: Self)
        ensures
            r@ == (FilterView { require_mtls: false, passthrough: seq![], path_header: None }),
            r.carried() == router,
    {
        let r = Filter {
            router,
            require_mtls_for_mutation: false,
            passthrough_indices: Vec::new(),
            path_partition_header: None,
        };
        assert(r@.passthrough =~= Seq::<Seq<char>>::empty());
        r
    }

    /// Requires a validated identity for write endpoints: a write without one is
    /// refused with `403`. Reads are unaffected.
    #[must_use]
    pub fn with_require_mtls_for_mutation(self, require: bool) -> (r: Self)
        ensures
            r@ == (FilterView { require_mtls: require, ..self@ }),
            r.carried() == self.carried(),
    {
        Filter {
            router: self.router,
            require_mtls_for_mutation: require,
            passthrough_indices: self.passthrough_indices,
            path_partition_header: self.path_partition_header,
        }
    }

    /// Forwards requests for these logical indices unchanged, bypassing tenancy.
    #[must_use]
    pub fn with_passthrough_indices(self, indices: Vec<String>) -> (r: Self)
        ensures
            r@ == (FilterView { passthrough: string_views(indices@), ..self@ }),
            r.carried() == self.carried(),
    {
        Filter {
            router: self.router,
            require_mtls_for_mutation: self.require_mtls_for_mutation,
            passthrough_indices: indices,
            path_partition_header: self.path_partition_header,
        }
    }

    /// Takes the tenant from the first path segment, moving it into `header` before
    /// the request is classified.
    #[must_use]
    pub fn with_path_partition_header(self, header: &str) -> (r: Self)
        ensures
            r@ == (FilterView { path_header: Some(header@), ..self@ }),
            r.carried() == self.carried(),
    {
        Filter {
            router: self.router,
            require_mtls_for_mutation: self.require_mtls_for_mutation,
            passthrough_indices: self.passthrough_indices,
            path_partition_header: Some(header.to_owned()),
        }
    }

    /// The router to ask.
    #[must_use]
    pub fn router(&self) -> (r: &R)
        ensures
            *r == self.carried(),
    {
        &self.router
    }

    /// The rewritten request, where path partitioning is on and the path names a
    /// tenant.
    fn rewrite_for_path(&self, req: &FilterRequest) -> (r: Option<FilterRequest>)
        ensures
            match r {
                Some(rewritten) => {
                    &&& rewritten_for_path(self@, req@) == Some(rewritten@)
                    &&& header_value(rewritten@.headers, self@.path_header->0) == path_tenant(
                        req@.path_and_query,
                    )
                },
                None => rewritten_for_path(self@, req@) is None,
            },
    {
        let header = match &self.path_partition_header {
            Some(header) => header,
            None => return None,
        };
        match split_leading_segment(req.path_and_query.as_str()) {
            None => None,
            Some((tenant, rest)) => {
                proof {
                    replaced_headers_are_found(req@.headers, header@, tenant@);
                }
                let mut rewritten = req.copy();
                rewritten.path_and_query = rest;
                rewritten.headers = replace_header(
                    req.headers.as_slice(),
                    header.as_str(),
                    tenant,
                );
                Some(rewritten)
            },
        }
    }

    fn is_passthrough(&self, index: &str) -> (r: bool)
        ensures
            r == self@.passthrough.contains(index@),
    {
        let mut i: usize = 0;
        while i < self.passthrough_indices.len()
            invariant
                i <= self.passthrough_indices@.len(),
                forall|k: int| 0 <= k < i ==> #[trigger] self@.passthrough[k] != index@,
            decreases self.passthrough_indices@.len() - i,
        {
            if text::same(self.passthrough_indices[i].as_str(), index) {
                assert(self@.passthrough[i as int] == index@);
                return true;
            }
            i += 1;
        }
        false
    }

    /// Adapts a request and decides what can be decided without the tenancy.
    fn begin(&self, req: &FilterRequest, headers_only: bool) -> (r: Begin)
        ensures
            r.seen() == if headers_only {
                begin_headers(self@, req@)
            } else {
                begin(self@, req@)
            },
            r.parts() == adapted(self@, req@),
    {
        let rewritten = self.rewrite_for_path(req);
        let actual = match &rewritten {
            Some(rewritten) => rewritten,
            None => req,
        };
        proof {
            reveal_strlit("");
            assert(""@ =~= Seq::<char>::empty());
        }
        let request_id = match actual.header("x-request-id") {
            Some(id) => id,
            None => "",
        };
        let parts = match RequestParts::from_filter(actual, request_id) {
            Ok(parts) => parts,
            Err(_) => return Begin::Refuse(400, "unsupported_method", None),
        };
        if !headers_only && self.require_mtls_for_mutation && parts.endpoint().is_write()
            && !req.identity.presented {
            return Begin::Refuse(403, "mtls_required_for_mutation", Some(parts));
        }
        if self.is_passthrough(parts.ctx().logical_index()) {
            let path = match &rewritten {
                Some(rewritten) => Some(rewritten.path_and_query.clone()),
                None => None,
            };
            return Begin::Pass(path, parts);
        }
        Begin::Route(parts)
    }

    /// Starts to handle a request: adapts it and applies the filter's policies. Either
    /// it is done, or the request is to be routed and handed to [`Filter::forward`].
    pub fn handle<A: EnvoyActions>(&self, req: &FilterRequest, actions: &mut A) -> (step:
        HandleStep)
        ensures
            final(actions).state() == after_all::<A>(
                old(actions).state(),
                begin_effects(begin(self@, req@)),
            ),
            match step {
                HandleStep::Done(d) => !(begin(self@, req@) is Route) && d == begin_decision(
                    begin(self@, req@),
                ),
                HandleStep::Route(parts) => begin(self@, req@) == BeginView::Route(parts@),
            },
    {
        let b = self.begin(req, false);
        issue(b, actions)
    }

    /// Finishes a request that was routed: issues the effects of forwarding it, or of
    /// refusing it.
    pub fn forward<A: EnvoyActions>(
        &self,
        parts: &RequestParts,
        outcome: &RouteOutcome,
        actions: &mut A,
    ) -> (d: FilterDecision)
        ensures
            d == forward_decision(prepared(parts@, outcome@)),
            final(actions).state() == after_all::<A>(
                old(actions).state(),
                forward_effects(prepared(parts@, outcome@)),
            ),
            forwards_in_partition(parts@, outcome@),
    {
        apply_forward(&route::prepare(&parts.ctx(), outcome), actions)
    }

    /// Starts the header phase: only the upstream is chosen, before the body arrives.
    /// Either it is done, or the request is to be routed and handed to
    /// [`Filter::route_target`].
    pub fn route_headers<A: EnvoyActions>(&self, req: &FilterRequest, actions: &mut A) -> (step:
        HandleStep)
        ensures
            final(actions).state() == after_all::<A>(
                old(actions).state(),
                begin_effects(begin_headers(self@, req@)),
            ),
            match step {
                HandleStep::Done(d) => !(begin_headers(self@, req@) is Route) && d
                    == begin_decision(begin_headers(self@, req@)),
                HandleStep::Route(parts) => begin_headers(self@, req@) == BeginView::Route(parts@),
            },
    {
        let b = self.begin(req, true);
        issue(b, actions)
    }

    /// Finishes the header phase: sets the cluster and the upstream authority, or
    /// refuses the request.
    pub fn route_target<A: EnvoyActions>(&self, outcome: &RouteOutcome, actions: &mut A) -> (d:
        FilterDecision)
        ensures
            d == target_decision(outcome@),
            final(actions).state() == after_all::<A>(
                old(actions).state(),
                target_effects(outcome@),
            ),
    {
        let ghost start = actions.state();
        let ghost none: Seq<Effect> = seq![];
        match route::resolve_target(outcome) {
            Ok((cluster, host)) => {
                actions.set_upstream_cluster(cluster.as_str());
                let ghost first = Effect::Cluster(cluster@);
                proof {
                    lemma_after_push::<A>(start, none, first);
                }
                if let Some(host) = host {
                    actions.set_upstream_host(host.as_str());
                    proof {
                        let second = Effect::Host(host@);
                        lemma_after_push::<A>(start, none.push(first), second);
                        assert(none.push(first).push(second) =~= target_effects(outcome@));
                    }
                } else {
                    assert(none.push(first) =~= target_effects(outcome@));
                }
                FilterDecision::ContinueUpstream
            },
            Err(reply) => {
                actions.send_local_reply(
                    reply.status,
                    reply.headers.as_slice(),
                    reply.body.as_slice(),
                );
                proof {
                    let effect = Effect::Reply(reply.status, reply@.headers, reply@.body);
                    lemma_after_push::<A>(start, none, effect);
                    assert(none.push(effect) =~= reply_effects(reply@));
                }
                FilterDecision::StoppedWithLocalReply
            },
        }
    }

    /// The parts of a request to resolve when its response is shaped or its decision
    /// is reported; `None` for a method that is not handled, and for an index that
    /// bypasses tenancy.
    #[must_use]
    pub fn parts(&self, req: &FilterRequest) -> (r: Option<RequestParts>)
        ensures
            match r {
                Some(parts) => tenant_parts(self@, req@) == Some(parts@),
                None => tenant_parts(self@, req@) is None,
            },
    {
        proof {
            reveal_strlit("");
            assert(""@ =~= Seq::<char>::empty());
        }
        let rewritten = self.rewrite_for_path(req);
        let actual = match &rewritten {
            Some(rewritten) => rewritten,
            None => req,
        };
        match RequestParts::from_filter(actual, "") {
            Ok(parts) => if self.is_passthrough(parts.ctx().logical_index()) {
                None
            } else {
                Some(parts)
            },
            Err(_) => None,
        }
    }

    /// The response phase: reshapes a read's upstream response into the client's
    /// logical view. `None` when there is nothing to do.
    #[must_use]
    pub fn shape_response(
        &self,
        parts: &RequestParts,
        answer: &Result<Resolved, SpiError>,
        upstream_body: &[u8],
    ) -> (r: Option<Vec<u8>>)
        ensures
            match r {
                Some(body) => shaped_read(parts@, resolution(*answer), upstream_body@) == Some(
                    body@,
                ),
                None => shaped_read(parts@, resolution(*answer), upstream_body@) is None,
            },
    {
        route::shape_read_response(&parts.ctx(), answer, upstream_body)
    }

    /// Whether a request targets a write endpoint. One that cannot be adapted is not a
    /// write.
    #[must_use]
    pub fn is_write(&self, req: &FilterRequest) -> (r: bool)
        ensures
            r == request_writes(self@, req@),
    {
        match self.begin(req, true) {
            Begin::Refuse(_, _, None) => false,
            Begin::Refuse(_, _, Some(parts)) => parts.endpoint().is_write(),
            Begin::Pass(_, parts) => parts.endpoint().is_write(),
            Begin::Route(parts) => parts.endpoint().is_write(),
        }
    }

    /// A shape-only summary of the decision for a request, with the trace id that ties
    /// it to the proxy's span. `None` if the request does not resolve.
    #[must_use]
    pub fn decision_shape(&self, req: &FilterRequest, answer: &Result<Resolved, SpiError>) -> (r:
        Option<String>)
        ensures
            text::optional(r) == traced_shape(self@, req@, resolution(*answer)),
    {
        if self.parts(req).is_none() {
            return None;
        }
        let resolved = match answer {
            Ok(resolved) => resolved,
            Err(_) => return None,
        };
        let mut shape = route::decision_shape(resolved);
        let ghost base = shape@;
        if let Some(trace) = req.trace_id() {
            shape.append(";trace=");
            shape.append(trace);
            assert(shape@ =~= base + (";trace="@ + trace@));
        } else {
            assert(base + Seq::<char>::empty() =~= base);
        }
        Some(shape)
    }

    /// Starts a shape-only explanation of a request: what the filter would do with it,
    /// its own policies included. Either it is done, or the request is to be routed and
    /// handed to [`Filter::explain_outcome`].
    #[must_use]
    pub fn explain(&self, req: &FilterRequest) -> (step: ExplainStep)
        ensures
            match step {
                ExplainStep::Done(line) => {
                    &&& explained_unasked(self@, req@) == Some(line@)
                    &&& forall|answer: Resolution, admitted: bool|
                        line@ == #[trigger] explained(self@, req@, answer, admitted)
                },
                ExplainStep::Route(parts) => {
                    &&& begin(self@, req@) == BeginView::Route(parts@)
                    &&& explained_unasked(self@, req@) is None
                    &&& forall|answer: Resolution, admitted: bool|
                        explanation(parts@, outcome_of(parts@.endpoint, answer, admitted))
                            == #[trigger] explained(self@, req@, answer, admitted)
                },
            },
    {
        match self.begin(req, false) {
            Begin::Refuse(_, _, None) => ExplainStep::Done(
                "{\"outcome\":\"reject\",\"status\":400,\"code\":\"unsupported_method\"}".to_owned(),
            ),
            Begin::Refuse(status, code, Some(parts)) => ExplainStep::Done(
                route::explain(&parts.ctx(), &RouteOutcome::Rejected { status, code }),
            ),
            Begin::Pass(_, parts) => ExplainStep::Done(
                route::explain_route(&parts.ctx(), "passthrough"),
            ),
            Begin::Route(parts) => ExplainStep::Route(parts),
        }
    }

    /// Explains a request that was routed.
    #[must_use]
    pub fn explain_outcome(&self, parts: &RequestParts, outcome: &RouteOutcome) -> (line: String)
        ensures
            line@ == explanation(parts@, outcome@),
    {
        route::explain(&parts.ctx(), outcome)
    }
}

/// Issues the effects of what was decided before the tenancy is asked.
fn issue<A: EnvoyActions>(b: Begin, actions: &mut A) -> (step: HandleStep)
    ensures
        final(actions).state() == after_all::<A>(old(actions).state(), begin_effects(b.seen())),
        match step {
            HandleStep::Done(d) => !(b.seen() is Route) && d == begin_decision(b.seen()),
            HandleStep::Route(parts) => b.seen() == BeginView::Route(parts@),
        },
{
    let ghost start = actions.state();
    let ghost none: Seq<Effect> = seq![];
    match b {
        Begin::Refuse(status, code, _) => {
            let reply = route::immediate(status, code);
            actions.send_local_reply(reply.status, reply.headers.as_slice(), reply.body.as_slice());
            proof {
                let effect = Effect::Reply(reply.status, reply@.headers, reply@.body);
                lemma_after_push::<A>(start, none, effect);
                assert(none.push(effect) =~= reply_effects(reply@));
            }
            HandleStep::Done(FilterDecision::StoppedWithLocalReply)
        },
        Begin::Pass(path, _) => {
            if let Some(path) = path {
                actions.set_path(path.as_str());
                proof {
                    lemma_after_push::<A>(start, none, Effect::Path(path@));
                    assert(none.push(Effect::Path(path@)) =~= seq![Effect::Path(path@)]);
                }
            }
            HandleStep::Done(FilterDecision::ContinueUpstream)
        },
        Begin::Route(parts) => HandleStep::Route(parts),
    }
}

/// The policies that a configuration gives a filter over the reference tenancy.
pub open spec fn configured(config: ConfigView) -> FilterView {
    FilterView {
        require_mtls: false,
        passthrough: config.passthrough_indices,
        path_header: if config.partition_from_path {
            Some(config.partition_header)
        } else {
            None
        },
    }
}

/// A filter over `router`, with the policies that the configuration names: the indices
/// that bypass tenancy, and path partitioning.
#[must_use]
pub fn configured_filter<R>(router: R, config: &FilterConfig) -> (r: Filter<R>)
    ensures
        r@ == configured(config@),
        r.carried() == router,
{
    let filter = Filter::new(router).with_passthrough_indices(
        text::copy_strings(&config.passthrough_indices),
    );
    if config.partition_from_path {
        filter.with_path_partition_header(config.partition_header.as_str())
    } else {
        filter
    }
}

/// A filter over the reference tenancy that the configuration describes, with the
/// policies it names.
#[must_use]
pub fn reference_filter(config: &FilterConfig) -> (r: Filter<ReferenceTenancy>)
    ensures
        r@ == configured(config@),
        r.carried()@ == (TenancyView { config: config@, migration: None }),
{
    configured_filter(ReferenceTenancy::from_config(config), config)
}

/// The tenant of `/{tenant}/{rest}` is its first segment, and what is routed is the rest,
/// with the query where there is one. A lone segment names no tenant, and neither does an
/// empty one.
pub proof fn tenants_are_the_first_segment(
    tenant: Seq<char>,
    rest: Seq<char>,
    query: Seq<char>,
)
    requires
        !tenant.contains('/'),
        !tenant.contains('?'),
        !rest.contains('?'),
        query.len() == 0 || query[0] == '?',
    ensures
        tenant.len() > 0 ==> leading_split(seq!['/'] + tenant + seq!['/'] + rest + query) == Some(
            (tenant, seq!['/'] + rest + query),
        ),
        tenant.len() > 0 ==> path_tenant(seq!['/'] + tenant + seq!['/'] + rest + query) == Some(
            tenant,
        ),
        leading_split(seq!['/'] + tenant + query) is None,
        leading_split(seq!['/', '/'] + rest + query) is None,
{
    let front = seq!['/'] + tenant + seq!['/'] + rest;
    lemma_target(front, query);
    let relative = front.skip(1);
    assert(relative =~= tenant + seq!['/'] + rest);
    assert forall|i: int| 0 <= i < tenant.len() implies relative[i] != '/' by {
        assert(tenant.contains(tenant[i]));
    }
    text::lemma_first_at(relative, '/', tenant.len() as int);
    assert(relative.take(tenant.len() as int) =~= tenant);
    assert(relative.skip(tenant.len() as int + 1) =~= rest);
    let lone = seq!['/'] + tenant;
    lemma_target(lone, query);
    assert(lone.skip(1) =~= tenant);
    text::lemma_find(tenant, '/');
    if text::find(tenant, '/') < tenant.len() {
        assert(tenant.contains(tenant[text::find(tenant, '/')]));
    }
    let double = seq!['/', '/'] + rest;
    lemma_target(double, query);
    assert(double.skip(1) =~= seq!['/'] + rest);
    text::lemma_first_at(double.skip(1), '/', 0);
}

/// A target is its path and, behind the first question mark, its query.
proof fn lemma_target(path: Seq<char>, query: Seq<char>)
    requires
        !path.contains('?'),
        query.len() == 0 || query[0] == '?',
    ensures
        before(path + query, '?') == path,
        match cut(path + query, '?') {
            Some((_, tail)) => query == seq!['?'] + tail,
            None => query.len() == 0,
        },
{
    let target = path + query;
    text::lemma_find(target, '?');
    assert forall|i: int| 0 <= i < path.len() implies target[i] != '?' by {
        assert(path.contains(path[i]));
    }
    if query.len() > 0 {
        text::lemma_first_at(target, '?', path.len() as int);
        assert(target.skip(path.len() as int + 1) =~= query.skip(1));
        assert(query =~= seq!['?'] + query.skip(1));
    } else {
        let at = text::find(target, '?');
        if at < target.len() {
            assert(target[at] == path[at]);
        }
        assert(target =~= path);
    }
    assert(target.take(path.len() as int) =~= path);
}

/// What path partitioning makes of a request: the rest of its path, with the tenant under
/// the configured header, and everything else as it came. Where it is off, or the path
/// names no tenant, the request is the one that came.
pub proof fn only_path_and_tenant_are_rewritten(f: FilterView, req: RequestView)
    ensures
        f.path_header is None ==> effective(f, req) == req,
        leading_split(req.path_and_query) is None ==> effective(f, req) == req,
        effective(f, req).method == req.method,
        effective(f, req).body == req.body,
        effective(f, req).identity == req.identity,
        effective(f, req).authority == req.authority,
        effective(f, req).version == req.version,
        match (f.path_header, leading_split(req.path_and_query)) {
            (Some(header), Some((tenant, rest))) => {
                &&& effective(f, req).path_and_query == rest
                &&& header_value(effective(f, req).headers, header) == Some(tenant)
                &&& forall|other: Seq<char>|
                    text::lower(other) != text::lower(header) ==> #[trigger] header_value(
                        effective(f, req).headers,
                        other,
                    ) == header_value(req.headers, other)
            },
            _ => true,
        },
{
    if let (Some(header), Some((tenant, rest))) = (
        f.path_header,
        leading_split(req.path_and_query),
    ) {
        replaced_headers_are_found(req.headers, header, tenant);
    }
}

/// What a request starts with: a refusal where its method is not handled, or where it is a
/// write without an identity and one is required; else it passes where its index bypasses
/// tenancy, under its rewritten path if it has one; and else it is routed with the parts
/// and the id that it came with. The header phase differs in the identity policy alone.
pub proof fn requests_are_refused_passed_or_routed(f: FilterView, req: RequestView)
    ensures
        match adapted(f, req) {
            None => {
                &&& begin(f, req) == BeginView::Refuse(400, "unsupported_method"@)
                &&& begin_headers(f, req) == BeginView::Refuse(400, "unsupported_method"@)
            },
            Some(parts) => {
                &&& f.require_mtls && parts.endpoint.writes() && !req.identity.presented
                    ==> begin(f, req) == BeginView::Refuse(403, "mtls_required_for_mutation"@)
                &&& !(f.require_mtls && parts.endpoint.writes() && !req.identity.presented)
                    ==> begin(f, req) == begin_headers(f, req)
                &&& f.passthrough.contains(parts.logical_index) ==> begin_headers(f, req)
                    == BeginView::Pass(
                    if effective(f, req) == req && rewritten_for_path(f, req) is None {
                        None
                    } else {
                        Some(effective(f, req).path_and_query)
                    },
                )
                &&& !f.passthrough.contains(parts.logical_index) ==> begin_headers(f, req)
                    == BeginView::Route(parts)
                &&& parts.request_id == match header_value(
                    effective(f, req).headers,
                    "x-request-id"@,
                ) {
                    Some(id) => id,
                    None => seq![],
                }
                &&& parts_of(effective(f, req), parts.request_id) == Some(parts)
            },
        },
{
}

/// What is done about a request before the tenancy is asked: a refusal is one JSON reply,
/// a rewritten path is set, and nothing else happens.
pub proof fn early_decisions_have_one_effect(status: u16, code: Seq<char>, path: Seq<char>)
    ensures
        begin_effects(BeginView::Refuse(status, code)) == seq![
            Effect::Reply(
                status,
                seq![("content-type"@, "application/json"@)],
                vstd::utf8::encode_utf8("{\"error\":\""@ + code + "\"}"@),
            ),
        ],
        begin_effects(BeginView::Pass(Some(path))) == seq![Effect::Path(path)],
        begin_effects(BeginView::Pass(None)).len() == 0,
        begin_decision(BeginView::Refuse(status, code)) == FilterDecision::StoppedWithLocalReply,
        begin_decision(BeginView::Pass(Some(path))) == FilterDecision::ContinueUpstream,
        begin_decision(BeginView::Pass(None)) == FilterDecision::ContinueUpstream,
{
}

/// The header phase names the placement's cluster and host, and nothing else; a request
/// that is not routed is refused.
pub proof fn header_phases_name_the_target(resolved: ResolvedView, status: u16, code: Seq<char>)
    ensures
        match host_of(resolved) {
            Some(host) => target_effects(OutcomeView::Routed(resolved)) == seq![
                Effect::Cluster(resolved.target.cluster),
                Effect::Host(host),
            ],
            None => target_effects(OutcomeView::Routed(resolved)) == seq![
                Effect::Cluster(resolved.target.cluster),
            ],
        },
        target_decision(OutcomeView::Routed(resolved)) == FilterDecision::ContinueUpstream,
        target_effects(OutcomeView::Rejected(status, code)) == reply_effects(
            refusal(status, code),
        ),
        target_decision(OutcomeView::Rejected(status, code))
            == FilterDecision::StoppedWithLocalReply,
{
}

/// The tenancy is asked again about a response exactly where it was asked about the
/// request, and the decision it reports is its shape, with the trace id of the request.
pub proof fn responses_belong_to_the_routed_request(
    f: FilterView,
    req: RequestView,
    resolved: ResolvedView,
)
    ensures
        begin_headers(f, req) is Route <==> tenant_parts(f, req) is Some,
        begin_headers(f, req) is Route ==> tenant_parts(f, req) == Some(
            PartsView { request_id: seq![], ..begin_headers(f, req)->Route_0 },
        ),
        tenant_parts(f, req) is None ==> traced_shape(f, req, Ok(resolved)) is None,
        tenant_parts(f, req) is Some ==> traced_shape(f, req, Ok(resolved)) == Some(
            match req.trace_id() {
                Some(trace) => shape_of(resolved) + (";trace="@ + trace),
                None => shape_of(resolved) + seq![],
            },
        ),
        forall|err: SpiError| #[trigger]
            traced_shape(f, req, Err(err)) is None,
{
}

/// Every way a request can go is explained in its own words.
pub proof fn explanations_tell_the_ways_apart(
    parts: PartsView,
    status: u16,
    code: Seq<char>,
    resolved: ResolvedView,
)
    ensures
        explanation_of(None, Fate::Refused(status, code))
            == "{\"outcome\":\"reject\",\"status\":400,\"code\":\"unsupported_method\"}"@,
        explanation_of(Some(parts), Fate::Refused(status, code)) == explanation(
            parts,
            OutcomeView::Rejected(status, code),
        ),
        explanation_of(Some(parts), Fate::Routed(resolved)) == explanation(
            parts,
            OutcomeView::Routed(resolved),
        ),
        explanation_of(Some(parts), Fate::Passed) == "{\"endpoint\":\""@ + parts.endpoint.name()
            + "\",\"outcome\":\"route\",\"decision\":\""@ + "passthrough"@ + "\""@
            + trace_field_of(trace_of(parts)) + "}"@,
{
}

/// A configuration gives a filter the indices that pass and, where the tenant is in the
/// path, the header that it is moved to; it does not ask for identities.
pub proof fn configurations_give_these_policies(config: ConfigView)
    ensures
        configured(config).passthrough == config.passthrough_indices,
        configured(config).path_header == if config.partition_from_path {
            Some(config.partition_header)
        } else {
            None
        },
        !configured(config).require_mtls,
{
}

/// A request is a write where it stores documents or deletes one by its id, whatever index
/// it names; one whose method is not handled is none.
pub proof fn writes_store_or_delete(f: FilterView, req: RequestView)
    ensures
        request_writes(f, req) <==> match adapted(f, req) {
            Some(parts) => {
                ||| parts.endpoint is IngestDoc
                ||| parts.endpoint is IngestBulk
                ||| parts.endpoint is DeleteById
            },
            None => false,
        },
{
}

/// A request is explained without the tenancy exactly where it is decided without it.
pub proof fn decided_requests_are_explained_unasked(f: FilterView, req: RequestView)
    ensures
        match begin(f, req) {
            BeginView::Refuse(status, code) => explained_unasked(f, req) == Some(
                explanation_of(adapted(f, req), Fate::Refused(status, code)),
            ),
            BeginView::Pass(_) => explained_unasked(f, req) == Some(
                explanation_of(adapted(f, req), Fate::Passed),
            ),
            BeginView::Route(_) => explained_unasked(f, req) is None,
        },
{
}

} // verus!
