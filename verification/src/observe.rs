//! What an operator sees and may change: counters, runtime directives, and the
//! reserved paths that serve them.
//!
//! Everything served here is shape-only: counts, codes and flags, never a tenant value.
use vstd::prelude::*;
use vstd::string::StrSliceExecFns;
use vstd::string::StringExecFns;
use crate::abi::copy_headers;
use crate::abi::find_header;
use crate::abi::header_value;
use crate::abi::header_views;
use crate::abi::no_identity;
use crate::abi::FilterRequest;
use crate::abi::HeaderView;
use crate::abi::HttpVersion;
use crate::abi::MtlsIdentity;
use crate::abi::RequestView;
use crate::asyncwrite::refuse;
use crate::asyncwrite::refused;
use crate::asyncwrite::ImmediateReply;
use crate::asyncwrite::ReplyView;
use crate::config::bool_or;
use crate::config::document;
use crate::config::flag_or;
use crate::config::opt_string;
use crate::json;
use crate::json::json_of;
use crate::text;
use crate::text::before;
use crate::text::cut;
use crate::text::decimal;
use crate::text::fields;
use crate::text::lower;
use crate::text::trimmed;
use crate::text::views;
use crate::xfcc::identity_of;

verus! {

/// The prefix of every reserved path.
pub const RESERVED_PREFIX: &'static str = "/_evoxy/";

/// The reserved path of the counters.
pub const METRICS_PATH: &'static str = "/_evoxy/metrics";

/// The reserved path of the token-gated directives.
pub const ADMIN_PATH: &'static str = "/_evoxy/admin/directives";

/// The reserved prefix of explanations: what follows it is the path to explain.
pub const EXPLAIN_PREFIX: &'static str = "/_evoxy/explain";

/// The shape-only response header that reports a routing decision.
pub const DECISION_HEADER: &'static str = "x-evoxy-decision";

/// Every reserved path lies under the one reserved prefix, so that a request outside
/// it is never mistaken for one.
pub proof fn reserved_paths_share_one_prefix()
    ensures
        RESERVED_PREFIX@.is_prefix_of(METRICS_PATH@),
        RESERVED_PREFIX@.is_prefix_of(ADMIN_PATH@),
        RESERVED_PREFIX@.is_prefix_of(EXPLAIN_PREFIX@),
{
    reveal_strlit("/_evoxy/");
    reveal_strlit("/_evoxy/metrics");
    reveal_strlit("/_evoxy/admin/directives");
    reveal_strlit("/_evoxy/explain");
}

/// Request counters.
#[derive(Debug, Clone)]
pub struct Metrics {
    routed: u64,
    rejected: u64,
}

/// The view of [`Metrics`].
#[verifier::ext_equal]
pub struct MetricsView {
    /// How many requests were routed.
    pub routed: u64,
    /// How many requests were rejected.
    pub rejected: u64,
}

impl View for Metrics {
    type V = MetricsView;

    closed spec fn view(&self) -> MetricsView {
        MetricsView { routed: self.routed, rejected: self.rejected }
    }
}

/// A counter one further; the largest is followed by zero.
pub open spec fn counted(n: u64) -> u64 {
    if n == u64::MAX {
        0
    } else {
        (n + 1) as u64
    }
}

/// The text of the counters.
pub open spec fn metrics_text(m: MetricsView) -> Seq<char> {
    "{\"requests\":"@ + decimal((m.routed + m.rejected) as nat) + ",\"routed\":"@ + decimal(
        m.routed as nat,
    ) + ",\"rejected\":"@ + decimal(m.rejected as nat) + "}"@
}

impl Default for Metrics {
    fn default() -> (r: Self)
        ensures
            r@ == (MetricsView { routed: 0, rejected: 0 }),
    {
        Metrics { routed: 0, rejected: 0 }
    }
}

impl Metrics {
    /// Records a request that was forwarded upstream.
    pub fn record_routed(&mut self)
        ensures
            final(self)@ == (MetricsView { routed: counted(old(self)@.routed), ..old(self)@ }),
    {
        self.routed = self.routed.wrapping_add(1);
    }

    /// Records a request that was answered with a fail-closed reply.
    pub fn record_rejected(&mut self)
        ensures
            final(self)@ == (MetricsView { rejected: counted(old(self)@.rejected), ..old(self)@ }),
    {
        self.rejected = self.rejected.wrapping_add(1);
    }

    /// A shape-only JSON snapshot: the total, the routed and the rejected requests.
    #[must_use]
    pub fn snapshot_json(&self) -> (body: Vec<u8>)
        ensures
            body@ == vstd::utf8::encode_utf8(metrics_text(self@)),
    {
        let mut out = text::concat("{\"requests\":", "");
        proof {
            reveal_strlit("");
            assert(out@ =~= "{\"requests\":"@);
        }
        text::push_decimal(&mut out, self.routed as u128 + self.rejected as u128);
        out.append(",\"routed\":");
        text::push_decimal(&mut out, self.routed as u128);
        out.append(",\"rejected\":");
        text::push_decimal(&mut out, self.rejected as u128);
        out.append("}");
        assert(out@ =~= metrics_text(self@));
        text::bytes_of(out.as_str())
    }
}

/// Runtime directives, flipped without a restart. There is one: whether the decision
/// header is emitted. A directive is never a security policy.
#[derive(Debug, Clone)]
pub struct Directives {
    emit_decision: bool,
}

impl Directives {
    /// Whether the decision header is on.
    pub closed spec fn emits(&self) -> bool {
        self.emit_decision
    }
}

/// A permissive boolean.
pub open spec fn bool_of(value: Seq<char>) -> Option<bool> {
    if value == "true"@ || value == "1"@ {
        Some(true)
    } else if value == "false"@ || value == "0"@ {
        Some(false)
    } else {
        None
    }
}

/// What one `key=value` setting makes of the directive: `None` where it is not a
/// setting of it.
pub open spec fn setting(piece: Seq<char>) -> Option<bool> {
    match cut(piece, '=') {
        Some((key, value)) => if key == "emit_decision"@ {
            bool_of(value)
        } else {
            None
        },
        None => None,
    }
}

/// The directive after some settings: as the last of them says.
pub open spec fn emits_after(emits: bool, pieces: Seq<Seq<char>>) -> bool
    decreases pieces.len(),
{
    if pieces.len() == 0 {
        emits
    } else {
        match setting(pieces.last()) {
            Some(on) => on,
            None => emits_after(emits, pieces.drop_last()),
        }
    }
}

/// How many settings of the directive there are.
pub open spec fn settings(pieces: Seq<Seq<char>>) -> nat
    decreases pieces.len(),
{
    if pieces.len() == 0 {
        0
    } else {
        settings(pieces.drop_last()) + if setting(pieces.last()) is Some {
            1nat
        } else {
            0nat
        }
    }
}

/// The text of the directives.
pub open spec fn directives_text(emits: bool) -> Seq<char> {
    "{\"emit_decision\":"@ + if emits {
        "true"@
    } else {
        "false"@
    } + "}"@
}

proof fn lemma_settings_bound(pieces: Seq<Seq<char>>)
    ensures
        settings(pieces) <= pieces.len(),
    decreases pieces.len(),
{
    if pieces.len() > 0 {
        lemma_settings_bound(pieces.drop_last());
    }
}

/// Settings without a recognized value change nothing and are not counted.
pub proof fn unrecognized_settings_change_nothing(emits: bool, pieces: Seq<Seq<char>>)
    requires
        forall|i: int| 0 <= i < pieces.len() ==> setting(#[trigger] pieces[i]) is None,
    ensures
        emits_after(emits, pieces) == emits,
        settings(pieces) == 0,
    decreases pieces.len(),
{
    if pieces.len() > 0 {
        assert(setting(pieces[pieces.len() - 1]) is None);
        unrecognized_settings_change_nothing(emits, pieces.drop_last());
    }
}

impl Default for Directives {
    fn default() -> (r: Self)
        ensures
            r.emits(),
    {
        Directives::new(true)
    }
}

impl Directives {
    /// Directives with the given initial state of the decision header.
    #[must_use]
    pub fn new(emit_decision: bool) -> (r: Self)
        ensures
            r.emits() == emit_decision,
    {
        Directives { emit_decision }
    }

    /// Whether the decision header should be emitted right now.
    #[must_use]
    pub fn emit_decision(&self) -> (r: bool)
        ensures
            r == self.emits(),
    {
        self.emit_decision
    }

    /// Applies the settings of a URL query (`emit_decision=false`), ignoring unknown
    /// keys and values. Returns how many were applied.
    pub fn apply_query(&mut self, query: &str) -> (applied: usize)
        ensures
            final(self).emits() == emits_after(old(self).emits(), fields(query@, '&')),
            applied == settings(fields(query@, '&')),
    {
        let pieces = text::split(query, '&');
        let ghost all = views(pieces@);
        let ghost start = self.emits();
        let mut applied: usize = 0;
        let mut i: usize = 0;
        assert(all.take(0) =~= Seq::<Seq<char>>::empty());
        while i < pieces.len()
            invariant
                i <= pieces@.len(),
                all == views(pieces@),
                self.emits() == emits_after(start, all.take(i as int)),
                applied == settings(all.take(i as int)),
                applied <= i,
            decreases pieces@.len() - i,
        {
            proof {
                assert(all.take(i + 1).drop_last() =~= all.take(i as int));
                assert(all.take(i + 1).last() == pieces@[i as int]@);
                lemma_settings_bound(all.take(i as int));
            }
            if let Some((key, value)) = text::split_once(pieces[i], '=') {
                if text::same(key, "emit_decision") {
                    if let Some(on) = parse_bool(value) {
                        self.emit_decision = on;
                        applied += 1;
                    }
                }
            }
            i += 1;
        }
        assert(all.take(i as int) =~= all);
        applied
    }

    /// A shape-only JSON snapshot of the directives.
    #[must_use]
    pub fn snapshot_json(&self) -> (body: Vec<u8>)
        ensures
            body@ == vstd::utf8::encode_utf8(directives_text(self.emits())),
    {
        let mut out = text::concat(
            "{\"emit_decision\":",
            if self.emit_decision {
                "true"
            } else {
                "false"
            },
        );
        out.append("}");
        text::bytes_of(out.as_str())
    }
}

/// Parses a permissive boolean (`true`/`false`/`1`/`0`).
fn parse_bool(value: &str) -> (r: Option<bool>)
    ensures
        r == bool_of(value@),
{
    if text::same(value, "true") || text::same(value, "1") {
        Some(true)
    } else if text::same(value, "false") || text::same(value, "0") {
        Some(false)
    } else {
        None
    }
}

/// Byte equality in a time that depends on the lengths alone: every byte is looked at,
/// whatever the earlier ones were.
#[must_use]
pub fn constant_time_eq(a: &[u8], b: &[u8]) -> (r: bool)
    ensures
        r == (a@ == b@),
{
    if a.len() != b.len() {
        return false;
    }
    let mut diff: u8 = 0;
    let mut i: usize = 0;
    while i < a.len()
        invariant
            i <= a@.len() == b@.len(),
            diff == 0 <==> forall|k: int| 0 <= k < i ==> a@[k] == b@[k],
        decreases a@.len() - i,
    {
        let x: u8 = a[i];
        let y: u8 = b[i];
        assert((diff | (x ^ y)) == 0 <==> (diff == 0 && x == y)) by (bit_vector);
        diff = diff | (x ^ y);
        i += 1;
    }
    assert(diff == 0 ==> a@ =~= b@);
    diff == 0
}

/// The configuration of the observation surface, read from the same blob as the
/// tenancy's.
#[derive(Debug, Clone)]
pub struct ObserveConfig {
    /// The bearer token that gates the directives. Without one they stay closed.
    pub admin_token: Option<String>,
    /// The initial state of the decision header.
    pub emit_decision: bool,
}

impl Default for ObserveConfig {
    fn default() -> (r: Self)
        ensures
            r.admin_token is None,
            r.emit_decision,
    {
        ObserveConfig { admin_token: None, emit_decision: true }
    }
}

impl ObserveConfig {
    /// Reads the observation keys of a parsed document; other keys are ignored.
    #[must_use]
    pub fn from_value(doc: &serde_json::Value) -> (r: Self)
        ensures
            text::optional(r.admin_token) == json_of(*doc).text_at("admin_token"@),
            r.emit_decision == bool_or(json_of(*doc), "emit_decision"@, true),
    {
        ObserveConfig {
            admin_token: opt_string(doc, "admin_token"),
            emit_decision: flag_or(doc, "emit_decision", true),
        }
    }

    /// Parses the observation keys of a JSON blob, falling back to the default of any
    /// missing key.
    #[must_use]
    pub fn from_json(raw: &str) -> (r: Self)
        ensures
            text::optional(r.admin_token) == document(raw@).text_at("admin_token"@),
            r.emit_decision == bool_or(document(raw@), "emit_decision"@, true),
    {
        match json::parse_text(raw) {
            Some(doc) => ObserveConfig::from_value(&doc),
            None => ObserveConfig::default(),
        }
    }
}

/// The observation surface: counters, directives, and the token that gates them.
#[derive(Debug, Clone)]
pub struct Observe {
    metrics: Metrics,
    directives: Directives,
    admin_token: Option<String>,
}

/// The view of an [`Observe`].
#[verifier::ext_equal]
pub struct ObserveView {
    /// The counters.
    pub metrics: MetricsView,
    /// Whether the decision header is on.
    pub emits: bool,
    /// The token.
    pub token: Option<Seq<char>>,
}

impl View for Observe {
    type V = ObserveView;

    closed spec fn view(&self) -> ObserveView {
        ObserveView {
            metrics: self.metrics@,
            emits: self.directives.emits(),
            token: text::optional(self.admin_token),
        }
    }
}

/// A fresh observation surface.
pub open spec fn fresh(token: Option<Seq<char>>, emits: bool) -> ObserveView {
    ObserveView { metrics: MetricsView { routed: 0, rejected: 0 }, emits, token }
}

/// The value of the first header whose name is exactly `name`.
pub open spec fn exact_header(headers: Seq<HeaderView>, name: Seq<char>) -> Option<Seq<char>>
    decreases headers.len(),
{
    if headers.len() == 0 {
        None
    } else if headers[0].0 == name {
        Some(headers[0].1)
    } else {
        exact_header(headers.drop_first(), name)
    }
}

fn find_exact<'a>(headers: &'a [(String, String)], name: &str) -> (r: Option<&'a str>)
    ensures
        text::viewed(r) == exact_header(header_views(headers@), name@),
{
    let ghost all = header_views(headers@);
    let mut i: usize = 0;
    assert(all.skip(0) =~= all);
    while i < headers.len()
        invariant
            i <= headers@.len(),
            all == header_views(headers@),
            exact_header(all, name@) == exact_header(all.skip(i as int), name@),
        decreases headers@.len() - i,
    {
        assert(all.skip(i as int)[0] == all[i as int]);
        if text::same(headers[i].0.as_str(), name) {
            return Some(headers[i].1.as_str());
        }
        assert(all.skip(i as int).drop_first() =~= all.skip(i + 1));
        i += 1;
    }
    None
}

/// The path of a request without its query, as its headers name it.
pub open spec fn path_of(headers: Seq<HeaderView>) -> Seq<char> {
    match exact_header(headers, ":path"@) {
        Some(target) => before(target, '?'),
        None => seq![],
    }
}

/// The query of a request, as its headers name it.
pub open spec fn query_of(headers: Seq<HeaderView>) -> Option<Seq<char>> {
    match exact_header(headers, ":path"@) {
        Some(target) => match cut(target, '?') {
            Some((_, query)) => Some(query),
            None => None,
        },
        None => None,
    }
}

/// The path that a request asks to have explained.
pub open spec fn explain_target_of(headers: Seq<HeaderView>) -> Option<Seq<char>> {
    let path = path_of(headers);
    if EXPLAIN_PREFIX@.is_prefix_of(path) {
        let rest = path.skip(EXPLAIN_PREFIX@.len() as int);
        if rest.len() > 0 && rest[0] == '/' {
            Some(rest)
        } else {
            None
        }
    } else {
        None
    }
}

/// The bearer token that a request carries.
pub open spec fn bearer_of(headers: Seq<HeaderView>) -> Option<Seq<char>> {
    match header_value(headers, "authorization"@) {
        Some(value) => match cut(value, ' ') {
            Some((scheme, token)) => if lower(scheme) == lower("bearer"@) {
                Some(trimmed(token))
            } else {
                None
            },
            None => None,
        },
        None => None,
    }
}

/// The request `:path` with the query stripped, for the reserved-path check.
pub fn reserved_path<'a>(headers: &'a [(String, String)]) -> (path: &'a str)
    ensures
        path@ == path_of(header_views(headers@)),
{
    match find_exact(headers, ":path") {
        Some(target) => match text::split_once(target, '?') {
            Some((path, _)) => path,
            None => {
                proof {
                    text::lemma_find(target@, '?');
                    assert(before(target@, '?') =~= target@);
                }
                target
            },
        },
        None => {
            proof {
                reveal_strlit("");
                assert(""@ =~= Seq::<char>::empty());
            }
            ""
        },
    }
}

/// The raw query of the request `:path`, for the settings of the directives.
fn raw_query<'a>(headers: &'a [(String, String)]) -> (query: Option<&'a str>)
    ensures
        text::viewed(query) == query_of(header_views(headers@)),
{
    match find_exact(headers, ":path") {
        Some(target) => match text::split_once(target, '?') {
            Some((_, query)) => Some(query),
            None => None,
        },
        None => None,
    }
}

/// The target path that an explain request names: `/_evoxy/explain/o/_search` names
/// `/o/_search`.
pub fn explain_target<'a>(headers: &'a [(String, String)]) -> (target: Option<&'a str>)
    ensures
        text::viewed(target) == explain_target_of(header_views(headers@)),
{
    match text::strip_prefix(reserved_path(headers), EXPLAIN_PREFIX) {
        Some(rest) => if rest.unicode_len() > 0 && rest.get_char(0) == '/' {
            Some(rest)
        } else {
            None
        },
        None => None,
    }
}

/// The bearer token of `Authorization: Bearer <token>`.
fn bearer<'a>(headers: &'a [(String, String)]) -> (token: Option<&'a str>)
    ensures
        text::viewed(token) == bearer_of(header_views(headers@)),
{
    match find_header(headers, "authorization") {
        Some(value) => match text::split_once(value, ' ') {
            Some((scheme, token)) => if text::same_ignoring_case(scheme, "bearer") {
                Some(text::trim(token))
            } else {
                None
            },
            None => None,
        },
        None => None,
    }
}

/// The headers with every `:path` among them set to `path`.
pub open spec fn with_path(headers: Seq<HeaderView>, path: Seq<char>) -> Seq<HeaderView> {
    headers.map_values(
        |h: HeaderView|
            if h.0 == ":path"@ {
                (h.0, path)
            } else {
                h
            },
    )
}

/// The request that some headers describe, under another path where one is given. The
/// identity is the one that the proxy forwards.
pub open spec fn request_of(
    headers: Seq<HeaderView>,
    path: Option<Seq<char>>,
    body: Seq<u8>,
) -> RequestView {
    let get = |name: Seq<char>|
        match header_value(headers, name) {
            Some(value) => value,
            None => seq![],
        };
    RequestView {
        method: get(":method"@),
        path_and_query: match path {
            Some(path) => path,
            None => get(":path"@),
        },
        authority: get(":authority"@),
        version: HttpVersion::Http2,
        headers: match path {
            Some(path) => with_path(headers, path),
            None => headers,
        },
        body,
        identity: match header_value(headers, "x-forwarded-client-cert"@) {
            Some(value) => identity_of(value),
            None => no_identity(),
        },
    }
}

fn header_or_empty(headers: &[(String, String)], name: &str) -> (value: String)
    ensures
        value@ == match header_value(header_views(headers@), name@) {
            Some(value) => value,
            None => seq![],
        },
{
    match find_header(headers, name) {
        Some(value) => value.to_owned(),
        None => String::new(),
    }
}

/// A copy of the headers with every `:path` among them set to `path`.
fn replace_path(headers: &[(String, String)], path: &str) -> (out: Vec<(String, String)>)
    ensures
        header_views(out@) == with_path(header_views(headers@), path@),
{
    let ghost all = with_path(header_views(headers@), path@);
    let mut out: Vec<(String, String)> = Vec::new();
    let mut i: usize = 0;
    while i < headers.len()
        invariant
            i <= headers@.len(),
            all == with_path(header_views(headers@), path@),
            out@.len() == i,
            forall|k: int| 0 <= k < i ==> ((#[trigger] out@[k]).0@, out@[k].1@) == all[k],
        decreases headers@.len() - i,
    {
        let value = if text::same(headers[i].0.as_str(), ":path") {
            path.to_owned()
        } else {
            headers[i].1.clone()
        };
        out.push((headers[i].0.clone(), value));
        i += 1;
    }
    assert(header_views(out@) =~= all);
    out
}

/// Builds a request from its headers and body, with another path where one is given.
/// The forwarded client certificate is trusted for the identity.
#[must_use]
pub fn request_from_headers(
    headers: &[(String, String)],
    path_override: Option<&str>,
    body: Vec<u8>,
) -> (req: FilterRequest)
    ensures
        req@ == request_of(header_views(headers@), text::viewed(path_override), body@),
{
    let identity = match find_header(headers, "x-forwarded-client-cert") {
        Some(xfcc) => MtlsIdentity::from_xfcc(xfcc),
        None => MtlsIdentity::default(),
    };
    let path_and_query = match path_override {
        Some(path) => path.to_owned(),
        None => header_or_empty(headers, ":path"),
    };
    FilterRequest {
        method: header_or_empty(headers, ":method"),
        path_and_query,
        authority: header_or_empty(headers, ":authority"),
        version: HttpVersion::Http2,
        headers: match path_override {
            Some(path) => replace_path(headers, path),
            None => copy_headers(headers),
        },
        body,
        identity,
    }
}

/// Whether a request may act on the directives: a token is configured, and the request
/// carries exactly that one.
pub open spec fn is_authorized(token: Option<Seq<char>>, headers: Seq<HeaderView>) -> bool {
    match (token, bearer_of(headers)) {
        (Some(token), Some(got)) => got == token,
        _ => false,
    }
}

/// The state of the decision header after a request to the directives.
pub open spec fn emits_after_admin(o: ObserveView, headers: Seq<HeaderView>) -> bool {
    if is_authorized(o.token, headers) {
        match query_of(headers) {
            Some(query) => emits_after(o.emits, fields(query, '&')),
            None => o.emits,
        }
    } else {
        o.emits
    }
}

/// The reply to a request to the directives.
pub open spec fn admin_reply_of(o: ObserveView, headers: Seq<HeaderView>) -> ReplyView {
    if is_authorized(o.token, headers) {
        ReplyView {
            status: 200,
            body: vstd::utf8::encode_utf8(directives_text(emits_after_admin(o, headers))),
        }
    } else {
        refused(403, "unauthorized"@)
    }
}

/// The directives fail closed: without a configured token, or without that very token
/// on the request, the reply is `403` and nothing changes.
pub proof fn unauthorized_requests_change_nothing(o: ObserveView, headers: Seq<HeaderView>)
    requires
        o.token is None || bearer_of(headers) != o.token,
    ensures
        admin_reply_of(o, headers) == refused(403, "unauthorized"@),
        emits_after_admin(o, headers) == o.emits,
{
}

/// What a reserved path asks for.
pub enum ReservedView {
    /// It is no reserved path.
    No,
    /// The counters.
    Metrics,
    /// The directives.
    Admin,
    /// The explanation of a path.
    Explain(Seq<char>),
}

/// What the path of a request asks for.
pub open spec fn reserved(headers: Seq<HeaderView>) -> ReservedView {
    let path = path_of(headers);
    if path == METRICS_PATH@ {
        ReservedView::Metrics
    } else if path == ADMIN_PATH@ {
        ReservedView::Admin
    } else {
        match explain_target_of(headers) {
            Some(target) => ReservedView::Explain(target),
            None => ReservedView::No,
        }
    }
}

/// Only paths under the reserved prefix are reserved: every other request belongs to
/// the data plane.
pub proof fn only_prefixed_paths_are_reserved(headers: Seq<HeaderView>)
    requires
        !RESERVED_PREFIX@.is_prefix_of(path_of(headers)),
    ensures
        reserved(headers) is No,
{
    reserved_paths_share_one_prefix();
    let path = path_of(headers);
    if EXPLAIN_PREFIX@.is_prefix_of(path) {
        reveal_strlit("/_evoxy/");
        reveal_strlit("/_evoxy/explain");
        assert(RESERVED_PREFIX@.is_prefix_of(path)) by {
            assert(path.subrange(0, EXPLAIN_PREFIX@.len() as int) =~= EXPLAIN_PREFIX@);
            assert(path.subrange(0, RESERVED_PREFIX@.len() as int) =~= RESERVED_PREFIX@) by {
                assert forall|i: int| 0 <= i < RESERVED_PREFIX@.len() implies path[i]
                    == RESERVED_PREFIX@[i] by {
                    assert(path[i] == EXPLAIN_PREFIX@[i]);
                }
            }
        }
    }
}

/// What to do about a request that may name a reserved path.
#[derive(Debug, Clone)]
pub enum ReservedStep {
    /// It is a normal request.
    NotReserved,
    /// It is answered.
    Done(ImmediateReply),
    /// This request is to be explained; the explanation is the reply.
    Explain(FilterRequest),
}

impl Default for Observe {
    fn default() -> (r: Self)
        ensures
            r@ == fresh(None, true),
    {
        Observe::from_config(&ObserveConfig::default())
    }
}

impl Observe {
    /// The surface that a configuration describes.
    #[must_use]
    pub fn from_config(config: &ObserveConfig) -> (r: Self)
        ensures
            r@ == fresh(text::optional(config.admin_token), config.emit_decision),
    {
        Observe {
            metrics: Metrics::default(),
            directives: Directives::new(config.emit_decision),
            admin_token: match &config.admin_token {
                Some(token) => Some(token.clone()),
                None => None,
            },
        }
    }

    /// Sets the token that gates the directives.
    #[must_use]
    pub fn with_admin_token(self, token: &str) -> (r: Self)
        ensures
            r@ == (ObserveView { token: Some(token@), ..self@ }),
    {
        Observe {
            metrics: self.metrics,
            directives: self.directives,
            admin_token: Some(token.to_owned()),
        }
    }

    /// Records a request that was forwarded upstream.
    pub fn record_routed(&mut self)
        ensures
            final(self)@ == (ObserveView {
                metrics: MetricsView {
                    routed: counted(old(self)@.metrics.routed),
                    ..old(self)@.metrics
                },
                ..old(self)@
            }),
    {
        self.metrics.record_routed();
    }

    /// Records a request that was answered with a fail-closed reply.
    pub fn record_rejected(&mut self)
        ensures
            final(self)@ == (ObserveView {
                metrics: MetricsView {
                    rejected: counted(old(self)@.metrics.rejected),
                    ..old(self)@.metrics
                },
                ..old(self)@
            }),
    {
        self.metrics.record_rejected();
    }

    /// What to do about a request that may name a reserved path. The counters and the
    /// directives are answered at once; an explanation needs the tenancy.
    pub fn reserved_reply(&mut self, headers: &[(String, String)]) -> (step: ReservedStep)
        ensures
            match reserved(header_views(headers@)) {
                ReservedView::No => step is NotReserved && final(self)@ == old(self)@,
                ReservedView::Metrics => {
                    &&& step matches ReservedStep::Done(reply)
                    &&& reply@ == (ReplyView {
                        status: 200,
                        body: vstd::utf8::encode_utf8(metrics_text(old(self)@.metrics)),
                    })
                    &&& final(self)@ == old(self)@
                },
                ReservedView::Admin => {
                    &&& step matches ReservedStep::Done(reply)
                    &&& reply@ == admin_reply_of(old(self)@, header_views(headers@))
                    &&& final(self)@ == (ObserveView {
                        emits: emits_after_admin(old(self)@, header_views(headers@)),
                        ..old(self)@
                    })
                },
                ReservedView::Explain(target) => {
                    &&& step matches ReservedStep::Explain(req)
                    &&& req@ == request_of(header_views(headers@), Some(target), seq![])
                    &&& final(self)@ == old(self)@
                },
            },
    {
        let path = reserved_path(headers);
        if !text::starts_with(path, RESERVED_PREFIX) {
            proof {
                only_prefixed_paths_are_reserved(header_views(headers@));
            }
            return ReservedStep::NotReserved;
        }
        if text::same(path, METRICS_PATH) {
            return ReservedStep::Done(
                ImmediateReply { status: 200, body: self.metrics.snapshot_json() },
            );
        }
        if text::same(path, ADMIN_PATH) {
            return ReservedStep::Done(self.admin_reply(headers));
        }
        match explain_target(headers) {
            Some(target) => {
                let body: Vec<u8> = Vec::new();
                assert(body@ =~= Seq::<u8>::empty());
                ReservedStep::Explain(request_from_headers(headers, Some(target), body))
            },
            None => ReservedStep::NotReserved,
        }
    }

    /// The request whose decision the response should report, or `None` where the
    /// directives have silenced it.
    #[must_use]
    pub fn decision_header(&self, headers: &[(String, String)]) -> (r: Option<FilterRequest>)
        ensures
            match r {
                Some(req) => self@.emits && req@ == request_of(
                    header_views(headers@),
                    None,
                    seq![],
                ),
                None => !self@.emits,
            },
    {
        if !self.directives.emit_decision() {
            return None;
        }
        let body: Vec<u8> = Vec::new();
        assert(body@ =~= Seq::<u8>::empty());
        Some(request_from_headers(headers, None, body))
    }

    /// The token-gated reply of the directives: applies the settings of the query, and
    /// answers with what they are then. Without the configured token on the request it
    /// fails closed with `403`.
    fn admin_reply(&mut self, headers: &[(String, String)]) -> (r: ImmediateReply)
        ensures
            r@ == admin_reply_of(old(self)@, header_views(headers@)),
            final(self)@ == (ObserveView {
                emits: emits_after_admin(old(self)@, header_views(headers@)),
                ..old(self)@
            }),
    {
        let authorized = match (&self.admin_token, bearer(headers)) {
            (Some(token), Some(got)) => {
                proof {
                    vstd::utf8::encode_utf8_decode_utf8(got@);
                    vstd::utf8::encode_utf8_decode_utf8(token@);
                }
                constant_time_eq(got.as_bytes(), token.as_str().as_bytes())
            },
            _ => false,
        };
        if !authorized {
            return refuse(403, "unauthorized");
        }
        if let Some(query) = raw_query(headers) {
            self.directives.apply_query(query);
        }
        ImmediateReply { status: 200, body: self.directives.snapshot_json() }
    }
}

/// The path and the query of a request are those of its `:path`, before and behind the
/// first question mark.
pub proof fn paths_and_queries_are_those_of_the_request_line(
    headers: Seq<HeaderView>,
    path: Seq<char>,
    query: Seq<char>,
)
    requires
        !path.contains('?'),
        exact_header(headers, ":path"@) == Some(path + seq!['?'] + query) || exact_header(
            headers,
            ":path"@,
        ) == Some(path),
    ensures
        path_of(headers) == path,
        exact_header(headers, ":path"@) == Some(path + seq!['?'] + query) ==> query_of(headers)
            == Some(query),
        exact_header(headers, ":path"@) == Some(path) ==> query_of(headers) is None,
{
    let target = exact_header(headers, ":path"@)->0;
    text::lemma_find(target, '?');
    assert forall|i: int| 0 <= i < path.len() implies target[i] != '?' by {
        assert(path.contains(path[i]));
    }
    if target.len() > path.len() {
        text::lemma_first_at(target, '?', path.len() as int);
        assert(target.skip(path.len() as int + 1) =~= query);
    } else {
        let at = text::find(target, '?');
        if at < target.len() {
            assert(path.contains(target[at]));
        }
    }
    assert(target.take(path.len() as int) =~= path);
}

/// An exact lookup finds the first header of just that name.
pub proof fn exact_lookups_find_the_first(
    headers: Seq<HeaderView>,
    name: Seq<char>,
    value: Seq<char>,
    other: HeaderView,
)
    ensures
        exact_header(Seq::empty(), name) is None,
        exact_header(seq![(name, value)] + headers, name) == Some(value),
        other.0 != name ==> exact_header(seq![other] + headers, name) == exact_header(
            headers,
            name,
        ),
{
    assert((seq![other] + headers).drop_first() =~= headers);
}

/// The reserved paths are these three, and what follows the last of them is explained.
pub proof fn reserved_paths_are_these(headers: Seq<HeaderView>, target: Seq<char>)
    ensures
        path_of(headers) == "/_evoxy/metrics"@ <==> reserved(headers) is Metrics,
        path_of(headers) == "/_evoxy/admin/directives"@ <==> reserved(headers) is Admin,
        path_of(headers) == "/_evoxy/explain"@ + target && target.len() > 0 && target[0] == '/'
            <==> reserved(headers) == ReservedView::Explain(target),
{
    reveal_strlit("/_evoxy/metrics");
    reveal_strlit("/_evoxy/admin/directives");
    reveal_strlit("/_evoxy/explain");
    let path = path_of(headers);
    let prefix = "/_evoxy/explain"@;
    assert("/_evoxy/metrics"@.len() == 15 && "/_evoxy/admin/directives"@.len() == 24);
    assert("/_evoxy/metrics"@[8] == 'm' && "/_evoxy/admin/directives"@[8] == 'a');
    assert(prefix[8] == 'e' && prefix.len() == 15);
    if path == prefix + target {
        assert(prefix.is_prefix_of(path)) by {
            assert(path.subrange(0, 15) =~= prefix);
        }
        assert(path.skip(15) =~= target);
        assert(path[8] == 'e');
    }
    if prefix.is_prefix_of(path) {
        assert(path =~= prefix + path.skip(15)) by {
            assert(path.subrange(0, 15) =~= prefix);
        }
    }
}

/// A request carries the token that stands behind the scheme `Bearer`, whatever its case,
/// in its first `Authorization` header, without the white space around it.
pub proof fn bearers_carry_their_token(
    headers: Seq<HeaderView>,
    scheme: Seq<char>,
    token: Seq<char>,
)
    requires
        !scheme.contains(' '),
        header_value(headers, "authorization"@) == Some(scheme + seq![' '] + token),
    ensures
        bearer_of(headers) == if lower(scheme) == lower("bearer"@) {
            Some(trimmed(token))
        } else {
            None
        },
{
    let value = scheme + seq![' '] + token;
    assert forall|i: int| 0 <= i < scheme.len() implies value[i] != ' ' by {
        assert(scheme.contains(scheme[i]));
    }
    text::lemma_first_at(value, ' ', scheme.len() as int);
    assert(value.take(scheme.len() as int) =~= scheme);
    assert(value.skip(scheme.len() as int + 1) =~= token);
}

/// A request acts on the directives exactly where a token is configured and it carries
/// that one; then its query is applied and the new state is the reply.
pub proof fn only_the_token_holder_acts(o: ObserveView, headers: Seq<HeaderView>)
    ensures
        o.token is Some && bearer_of(headers) == o.token ==> {
            &&& emits_after_admin(o, headers) == match query_of(headers) {
                Some(query) => emits_after(o.emits, fields(query, '&')),
                None => o.emits,
            }
            &&& admin_reply_of(o, headers) == (ReplyView {
                status: 200,
                body: vstd::utf8::encode_utf8(
                    "{\"emit_decision\":"@ + if emits_after_admin(o, headers) {
                        "true"@
                    } else {
                        "false"@
                    } + "}"@,
                ),
            })
        },
        !(o.token is Some && bearer_of(headers) == o.token) ==> {
            &&& admin_reply_of(o, headers).status == 403
            &&& emits_after_admin(o, headers) == o.emits
        },
{
}

/// A setting names the directive and one of the four values; the last one that does
/// decides, and each is counted.
pub proof fn the_last_setting_decides(emits: bool, pieces: Seq<Seq<char>>, value: Seq<char>)
    ensures
        ({
            let piece = "emit_decision"@ + seq!['='] + value;
            let on = value == "true"@ || value == "1"@;
            let off = value == "false"@ || value == "0"@;
            &&& on ==> emits_after(emits, pieces.push(piece))
            &&& off ==> !emits_after(emits, pieces.push(piece))
            &&& !on && !off ==> emits_after(emits, pieces.push(piece)) == emits_after(
                emits,
                pieces,
            )
            &&& settings(pieces.push(piece)) == settings(pieces) + if on || off {
                1nat
            } else {
                0nat
            }
            &&& emits_after(emits, Seq::empty()) == emits
        }),
{
    let key = "emit_decision"@;
    let piece = key + seq!['='] + value;
    reveal_strlit("emit_decision");
    reveal_strlit("true");
    reveal_strlit("1");
    reveal_strlit("false");
    reveal_strlit("0");
    assert("true"@.len() == 4 && "1"@.len() == 1 && "false"@.len() == 5 && "0"@.len() == 1);
    assert("1"@[0] == '1' && "0"@[0] == '0');
    assert forall|i: int| 0 <= i < key.len() implies piece[i] != '=' by {
        assert(piece[i] == key[i]);
    }
    text::lemma_first_at(piece, '=', key.len() as int);
    assert(piece.take(key.len() as int) =~= key);
    assert(piece.skip(key.len() as int + 1) =~= value);
    assert(pieces.push(piece).drop_last() =~= pieces);
}

/// A setting of anything else changes nothing.
pub proof fn other_settings_change_nothing(
    emits: bool,
    pieces: Seq<Seq<char>>,
    key: Seq<char>,
    value: Seq<char>,
)
    requires
        !key.contains('='),
        key != "emit_decision"@,
    ensures
        emits_after(emits, pieces.push(key + seq!['='] + value)) == emits_after(emits, pieces),
        settings(pieces.push(key + seq!['='] + value)) == settings(pieces),
{
    let piece = key + seq!['='] + value;
    assert forall|i: int| 0 <= i < key.len() implies piece[i] != '=' by {
        assert(key.contains(key[i]));
    }
    text::lemma_first_at(piece, '=', key.len() as int);
    assert(piece.take(key.len() as int) =~= key);
    assert(pieces.push(piece).drop_last() =~= pieces);
}

/// A counter goes up by one, and a snapshot shows the counters and their sum.
pub proof fn counters_go_up_by_one(m: MetricsView, n: u64)
    ensures
        n < u64::MAX ==> counted(n) == n + 1,
        metrics_text(m) == "{\"requests\":"@ + decimal((m.routed + m.rejected) as nat)
            + ",\"routed\":"@ + decimal(m.routed as nat) + ",\"rejected\":"@ + decimal(
            m.rejected as nat,
        ) + "}"@,
{
}

/// A request is assembled from what its headers say of it: the pseudo-headers make its
/// request line, the forwarded certificate its identity, and a path that is given instead
/// stands in the request line and in the header list alike.
pub proof fn requests_are_assembled_from_their_headers(
    headers: Seq<HeaderView>,
    path: Seq<char>,
    body: Seq<u8>,
)
    ensures
        ({
            let req = request_of(headers, None, body);
            let other = request_of(headers, Some(path), body);
            let get = |name: Seq<char>|
                match header_value(headers, name) {
                    Some(value) => value,
                    None => seq![],
                };
            &&& req.method == get(":method"@) && other.method == get(":method"@)
            &&& req.authority == get(":authority"@) && other.authority == get(":authority"@)
            &&& req.path_and_query == get(":path"@)
            &&& other.path_and_query == path
            &&& req.version is Http2 && other.version is Http2
            &&& req.body == body && other.body == body
            &&& req.headers == headers
            &&& other.headers.len() == headers.len()
            &&& forall|i: int|
                0 <= i < headers.len() ==> (#[trigger] other.headers[i]).0 == headers[i].0
                    && other.headers[i].1 == if headers[i].0 == ":path"@ {
                    path
                } else {
                    headers[i].1
                }
            &&& req.identity == match header_value(headers, "x-forwarded-client-cert"@) {
                Some(value) => identity_of(value),
                None => no_identity(),
            }
            &&& other.identity == req.identity
            &&& !no_identity().presented
        }),
{
}

} // verus!
