//! The external-processing backend, apart from its transport.
//!
//! The proxy streams the phases of a request to a processor, which answers each with
//! mutations or an immediate response. Here the messages are plain values, and one
//! message is processed in steps: [`process_message`] says what is left to be asked of
//! the tenancy or the broker, and [`on_outcome`], [`on_answer`] and [`on_acked`] go on
//! from the reply. Nothing is dispatched: the proxy forwards the mutated request.
use vstd::prelude::*;
use vstd::slice::slice_to_vec;
use crate::abi::header_views;
use crate::abi::FilterRequest;
use crate::abi::HeaderView;
use crate::abi::RequestView;
use crate::abi::ResponseView;
use crate::actions::after_all;
use crate::actions::forward_effects;
use crate::actions::lemma_after_concat;
use crate::actions::op_effects;
use crate::actions::Effect;
use crate::actions::EnvoyActions;
use crate::adapter::PartsView;
use crate::adapter::RequestParts;
use crate::asyncwrite::asks_async;
use crate::asyncwrite::async_acked;
use crate::asyncwrite::async_answer;
use crate::asyncwrite::refuse;
use crate::asyncwrite::refused;
use crate::asyncwrite::wants_async;
use crate::asyncwrite::ImmediateReply;
use crate::asyncwrite::ProduceRequest;
use crate::asyncwrite::ReplyView;
use crate::decision::resolution;
use crate::decision::HeaderOpView;
use crate::decision::Resolution;
use crate::decision::Resolved;
use crate::decision::SpiError;
use crate::filter::adapted;
use crate::filter::begin;
use crate::filter::begin_effects;
use crate::filter::effective;
use crate::filter::explained_unasked;
use crate::filter::explanation_of;
use crate::filter::request_writes;
use crate::filter::tenant_parts;
use crate::filter::traced_shape;
use crate::filter::BeginView;
use crate::filter::CLUSTER_HEADER;
use crate::filter::ExplainStep;
use crate::filter::Fate;
use crate::filter::Filter;
use crate::filter::FilterView;
use crate::filter::HandleStep;
use crate::observe::admin_reply_of;
use crate::observe::counted;
use crate::observe::emits_after_admin;
use crate::observe::metrics_text;
use crate::observe::request_from_headers;
use crate::observe::request_of;
use crate::observe::reserved;
use crate::observe::DECISION_HEADER;
use crate::observe::MetricsView;
use crate::observe::Observe;
use crate::observe::ObserveView;
use crate::observe::ReservedStep;
use crate::observe::ReservedView;
use crate::route::explanation;
use crate::route::forwards_in_partition;
use crate::route::prepared;
use crate::route::shaped_read;
use crate::route::ForwardView;
use crate::route::OutcomeView;
use crate::route::PreparedView;
use crate::route::RouteOutcome;
use crate::text;
use crate::text::string_views;

verus! {

/// The default cap on a request body: rewriting holds the whole body, so an unbounded
/// one would be an unbounded allocation.
pub const DEFAULT_MAX_REQUEST_BODY_BYTES: usize = 33554432;

/// The append action of a header mutation that replaces the header, or adds it.
pub const OVERWRITE_IF_EXISTS_OR_ADD: i32 = 2;

/// The text that a string of bytes is read as: each maximal part that is no UTF-8 is
/// replaced by U+FFFD.
pub uninterp spec fn lossy(bytes: Seq<u8>) -> Seq<char>;

/// `String::from_utf8_lossy` reads bytes as text. Bytes that are UTF-8 are read as what
/// they encode; what becomes of others is left to the name.
#[verifier::external_body]
fn read_lossy(bytes: &[u8]) -> (s: String)
    ensures
        s@ == lossy(bytes@),
        vstd::utf8::valid_utf8(bytes@) ==> s@ == vstd::utf8::decode_utf8(bytes@),
{
    String::from_utf8_lossy(bytes).into_owned()
}

/// A header as the proxy sends it: its value is in `value` or, as bytes, in
/// `raw_value`.
#[derive(Debug, Clone)]
pub struct RawHeader {
    /// The name.
    pub key: String,
    /// The value as a string.
    pub value: String,
    /// The value as bytes.
    pub raw_value: Vec<u8>,
}

/// The view of a [`RawHeader`].
pub struct RawView {
    /// The name.
    pub key: Seq<char>,
    /// The value as a string.
    pub value: Seq<char>,
    /// The value as bytes.
    pub raw_value: Seq<u8>,
}

impl View for RawHeader {
    type V = RawView;

    open spec fn view(&self) -> RawView {
        RawView { key: self.key@, value: self.value@, raw_value: self.raw_value@ }
    }
}

/// The views of a list of raw headers.
pub open spec fn raw_views(headers: Seq<RawHeader>) -> Seq<RawView> {
    Seq::new(headers.len(), |i: int| headers[i]@)
}

/// A raw header as a name and a value: the string where it is set, else the bytes.
pub open spec fn read_header(raw: RawView) -> HeaderView {
    (
        raw.key,
        if raw.value.len() == 0 {
            lossy(raw.raw_value)
        } else {
            raw.value
        },
    )
}

/// The headers that a list of raw headers stands for.
pub open spec fn read_headers(raw: Seq<RawView>) -> Seq<HeaderView> {
    Seq::new(raw.len(), |i: int| read_header(raw[i]))
}

/// Whether a raw header that comes as UTF-8 bytes is read as what they encode.
pub open spec fn is_read_exactly(raw: RawView, value: Seq<char>) -> bool {
    raw.value.len() == 0 && vstd::utf8::valid_utf8(raw.raw_value) ==> value
        == vstd::utf8::decode_utf8(raw.raw_value)
}

/// Flattens the proxy's headers into names and values.
#[must_use]
pub fn extract_headers(headers: &[RawHeader]) -> (out: Vec<(String, String)>)
    ensures
        header_views(out@) == read_headers(raw_views(headers@)),
        forall|i: int|
            0 <= i < out@.len() ==> is_read_exactly(headers@[i]@, (#[trigger] out@[i]).1@),
{
    let mut out: Vec<(String, String)> = Vec::new();
    let mut i: usize = 0;
    while i < headers.len()
        invariant
            i <= headers@.len(),
            out@.len() == i,
            forall|k: int|
                0 <= k < i ==> is_read_exactly(headers@[k]@, (#[trigger] out@[k]).1@),
            forall|k: int|
                0 <= k < i ==> ((#[trigger] out@[k]).0@, out@[k].1@) == read_header(headers@[k]@),
        decreases headers@.len() - i,
    {
        let value = if headers[i].value.as_str().is_empty() {
            read_lossy(headers[i].raw_value.as_slice())
        } else {
            headers[i].value.clone()
        };
        out.push((headers[i].key.clone(), value));
        i += 1;
    }
    assert(header_views(out@) =~= read_headers(raw_views(headers@)));
    out
}

/// One header to set. The proxy applies the bytes, not the string.
#[derive(Debug, Clone)]
pub struct HeaderSetting {
    /// The name.
    pub key: String,
    /// The value as a string, left empty.
    pub value: String,
    /// The value as bytes.
    pub raw_value: Vec<u8>,
    /// How the header is set.
    pub append_action: i32,
}

/// The view of a [`HeaderSetting`].
#[verifier::ext_equal]
pub struct SettingView {
    /// The name.
    pub key: Seq<char>,
    /// The value as a string.
    pub value: Seq<char>,
    /// The value as bytes.
    pub raw_value: Seq<u8>,
    /// How the header is set.
    pub append_action: i32,
}

impl View for HeaderSetting {
    type V = SettingView;

    open spec fn view(&self) -> SettingView {
        SettingView {
            key: self.key@,
            value: self.value@,
            raw_value: self.raw_value@,
            append_action: self.append_action,
        }
    }
}

/// The views of a list of header settings.
pub open spec fn setting_views(settings: Seq<HeaderSetting>) -> Seq<SettingView> {
    Seq::new(settings.len(), |i: int| settings[i]@)
}

/// A header that is replaced, or added.
pub open spec fn overwriting(name: Seq<char>, value: Seq<char>) -> SettingView {
    SettingView {
        key: name,
        value: seq![],
        raw_value: vstd::utf8::encode_utf8(value),
        append_action: OVERWRITE_IF_EXISTS_OR_ADD,
    }
}

fn overwrite(name: &str, value: &str) -> (r: HeaderSetting)
    ensures
        r@ == overwriting(name@, value@),
{
    HeaderSetting {
        key: name.to_owned(),
        value: String::new(),
        raw_value: text::bytes_of(value),
        append_action: OVERWRITE_IF_EXISTS_OR_ADD,
    }
}

/// The headers to set and to remove.
#[derive(Debug, Clone)]
pub struct HeaderMutation {
    /// Headers to set.
    pub set_headers: Vec<HeaderSetting>,
    /// Headers to remove.
    pub remove_headers: Vec<String>,
}

/// The view of a [`HeaderMutation`].
#[verifier::ext_equal]
pub struct MutationView {
    /// Headers to set.
    pub set_headers: Seq<SettingView>,
    /// Headers to remove.
    pub remove_headers: Seq<Seq<char>>,
}

impl View for HeaderMutation {
    type V = MutationView;

    open spec fn view(&self) -> MutationView {
        MutationView {
            set_headers: setting_views(self.set_headers@),
            remove_headers: string_views(self.remove_headers@),
        }
    }
}

/// The mutations that a phase is answered with.
#[derive(Debug, Clone)]
pub struct CommonResponse {
    /// The header mutations, if any.
    pub header_mutation: Option<HeaderMutation>,
    /// The new body, if it changes.
    pub body_mutation: Option<Vec<u8>>,
    /// Whether the proxy should choose the route anew.
    pub clear_route_cache: bool,
}

/// The view of a [`CommonResponse`].
#[verifier::ext_equal]
pub struct CommonView {
    /// The header mutations.
    pub header_mutation: Option<MutationView>,
    /// The new body.
    pub body_mutation: Option<Seq<u8>>,
    /// Whether the route is chosen anew.
    pub clear_route_cache: bool,
}

impl View for CommonResponse {
    type V = CommonView;

    open spec fn view(&self) -> CommonView {
        CommonView {
            header_mutation: match self.header_mutation {
                Some(m) => Some(m@),
                None => None,
            },
            body_mutation: match self.body_mutation {
                Some(body) => Some(body@),
                None => None,
            },
            clear_route_cache: self.clear_route_cache,
        }
    }
}

/// The response that changes nothing.
pub open spec fn unchanged() -> CommonView {
    CommonView { header_mutation: None, body_mutation: None, clear_route_cache: false }
}

impl Default for CommonResponse {
    fn default() -> (r: Self)
        ensures
            r@ == unchanged(),
    {
        CommonResponse { header_mutation: None, body_mutation: None, clear_route_cache: false }
    }
}

/// What a recorder of effects holds.
#[verifier::ext_equal]
pub struct EffectsView {
    /// The method that was set.
    pub method: Option<Seq<char>>,
    /// The path that was set.
    pub path: Option<Seq<char>>,
    /// The cluster that was chosen.
    pub cluster: Option<Seq<char>>,
    /// The authority that was chosen.
    pub host: Option<Seq<char>>,
    /// Headers that were set.
    pub extra_headers: Seq<SettingView>,
    /// Headers that were removed.
    pub remove_headers: Seq<Seq<char>>,
    /// The body that was set.
    pub body: Option<Seq<u8>>,
    /// The reply that was sent instead.
    pub immediate: Option<ReplyView>,
}

/// A recorder that has recorded nothing.
pub open spec fn no_effects() -> EffectsView {
    EffectsView {
        method: None,
        path: None,
        cluster: None,
        host: None,
        extra_headers: seq![],
        remove_headers: seq![],
        body: None,
        immediate: None,
    }
}

/// Records effects as the mutations that a phase is answered with.
#[derive(Debug, Clone)]
pub struct ExtProcActions {
    method: Option<String>,
    path: Option<String>,
    cluster: Option<String>,
    host: Option<String>,
    extra_headers: Vec<HeaderSetting>,
    remove_headers: Vec<String>,
    body: Option<Vec<u8>>,
    immediate: Option<ImmediateReply>,
}

impl Default for ExtProcActions {
    fn default() -> (r: Self)
        ensures
            r.state() == no_effects(),
    {
        let r = ExtProcActions {
            method: None,
            path: None,
            cluster: None,
            host: None,
            extra_headers: Vec::new(),
            remove_headers: Vec::new(),
            body: None,
            immediate: None,
        };
        assert(r.state() =~= no_effects());
        r
    }
}

impl EnvoyActions for ExtProcActions {
    type State = EffectsView;

    closed spec fn state(&self) -> EffectsView {
        EffectsView {
            method: text::optional(self.method),
            path: text::optional(self.path),
            cluster: text::optional(self.cluster),
            host: text::optional(self.host),
            extra_headers: setting_views(self.extra_headers@),
            remove_headers: string_views(self.remove_headers@),
            body: match self.body {
                Some(body) => Some(body@),
                None => None,
            },
            immediate: match self.immediate {
                Some(reply) => Some(reply@),
                None => None,
            },
        }
    }

    open spec fn after(state: EffectsView, effect: Effect) -> EffectsView {
        match effect {
            Effect::Cluster(cluster) => EffectsView { cluster: Some(cluster), ..state },
            Effect::Host(host) => EffectsView { host: Some(host), ..state },
            Effect::Method(method) => EffectsView { method: Some(method), ..state },
            Effect::Path(path) => EffectsView { path: Some(path), ..state },
            Effect::Body(body) => EffectsView { body: Some(body), ..state },
            Effect::SetHeader(name, value) => EffectsView {
                extra_headers: state.extra_headers.push(overwriting(name, value)),
                ..state
            },
            Effect::RemoveHeader(name) => EffectsView {
                remove_headers: state.remove_headers.push(name),
                ..state
            },
            Effect::Reply(status, _, body) => EffectsView {
                immediate: Some(ReplyView { status, body }),
                ..state
            },
        }
    }

    fn set_upstream_cluster(&mut self, cluster: &str) {
        self.cluster = Some(cluster.to_owned());
    }

    fn set_upstream_host(&mut self, host: &str) {
        self.host = Some(host.to_owned());
    }

    fn set_method(&mut self, method: &str) {
        self.method = Some(method.to_owned());
    }

    fn set_path(&mut self, path: &str) {
        self.path = Some(path.to_owned());
    }

    fn set_body(&mut self, body: &[u8]) {
        self.body = Some(slice_to_vec(body));
    }

    fn set_header(&mut self, name: &str, value: &str) {
        let ghost before = self.state();
        let setting = overwrite(name, value);
        self.extra_headers.push(setting);
        assert(self.state().extra_headers =~= before.extra_headers.push(overwriting(name@, value@)));
    }

    fn remove_header(&mut self, name: &str) {
        let ghost before = self.state();
        self.remove_headers.push(name.to_owned());
        assert(self.state().remove_headers =~= before.remove_headers.push(name@));
    }

    fn send_local_reply(&mut self, status: u16, _headers: &[(String, String)], body: &[u8]) {
        self.immediate = Some(ImmediateReply { status, body: slice_to_vec(body) });
    }
}

/// A header setting for a value, where there is one.
pub open spec fn setting_for(name: Seq<char>, value: Option<Seq<char>>) -> Seq<SettingView> {
    match value {
        Some(value) => seq![overwriting(name, value)],
        None => seq![],
    }
}

/// A value, where it is another than `original`.
pub open spec fn changed(value: Option<Seq<char>>, original: Seq<char>) -> Option<Seq<char>> {
    match value {
        Some(value) => if value == original {
            None
        } else {
            Some(value)
        },
        None => None,
    }
}

/// The headers that some effects set: the recorded ones, then the request line as far
/// as it changes, then the cluster and the authority.
pub open spec fn final_settings(
    e: EffectsView,
    orig_method: Seq<char>,
    orig_path: Seq<char>,
) -> Seq<SettingView> {
    e.extra_headers + setting_for(":method"@, changed(e.method, orig_method)) + setting_for(
        ":path"@,
        changed(e.path, orig_path),
    ) + setting_for(CLUSTER_HEADER@, e.cluster) + setting_for(":authority"@, e.host)
}

/// The headers that some effects remove: the recorded ones, and the length of a body
/// that changes.
pub open spec fn final_removals(e: EffectsView) -> Seq<Seq<char>> {
    if e.body is Some {
        e.remove_headers.push("content-length"@)
    } else {
        e.remove_headers
    }
}

/// The mutations that some effects come to, or the reply that was sent instead.
pub open spec fn finished(
    e: EffectsView,
    orig_method: Seq<char>,
    orig_path: Seq<char>,
) -> Result<CommonView, ReplyView> {
    match e.immediate {
        Some(reply) => Err(reply),
        None => {
            let set_headers = final_settings(e, orig_method, orig_path);
            let remove_headers = final_removals(e);
            Ok(
                CommonView {
                    header_mutation: if set_headers.len() == 0 && remove_headers.len() == 0 {
                        None
                    } else {
                        Some(MutationView { set_headers, remove_headers })
                    },
                    body_mutation: e.body,
                    clear_route_cache: false,
                },
            )
        },
    }
}

/// The physical request that some effects come to, or the reply that was sent instead.
/// What no effect changed is as it came.
pub open spec fn physical_request(
    e: EffectsView,
    orig_method: Seq<char>,
    orig_path: Seq<char>,
    orig_body: Seq<u8>,
) -> Result<(Seq<char>, Seq<char>, Seq<u8>), ReplyView> {
    match e.immediate {
        Some(reply) => Err(reply),
        None => Ok(
            (
                match e.method {
                    Some(method) => method,
                    None => orig_method,
                },
                match e.path {
                    Some(path) => path,
                    None => orig_path,
                },
                match e.body {
                    Some(body) => body,
                    None => orig_body,
                },
            ),
        ),
    }
}

/// A request line that does not change is not set again: setting a path means removing
/// it first, and the proxy would match its routes against an empty path in between.
pub proof fn unchanged_request_lines_are_not_set(
    e: EffectsView,
    orig_method: Seq<char>,
    orig_path: Seq<char>,
)
    requires
        e.method is None || e.method == Some(orig_method),
        e.path is None || e.path == Some(orig_path),
        e.extra_headers.len() == 0,
    ensures
        forall|i: int|
            0 <= i < final_settings(e, orig_method, orig_path).len() ==> (
            #[trigger] final_settings(e, orig_method, orig_path)[i]).key != ":path"@
                && final_settings(e, orig_method, orig_path)[i].key != ":method"@,
{
    reveal_strlit(":path");
    reveal_strlit(":method");
    reveal_strlit(":authority");
    reveal_strlit("x-evoxy-cluster");
    assert(":path"@.len() == 5 && ":method"@.len() == 7 && ":authority"@.len() == 10);
    assert(CLUSTER_HEADER@.len() == 15);
    let all = final_settings(e, orig_method, orig_path);
    assert(all =~= setting_for(CLUSTER_HEADER@, e.cluster) + setting_for(":authority"@, e.host));
}

/// A body that changes takes the client's content length with it, and the route is
/// never chosen anew.
pub proof fn changed_bodies_lose_their_length(
    e: EffectsView,
    orig_method: Seq<char>,
    orig_path: Seq<char>,
)
    requires
        e.immediate is None,
    ensures
        match finished(e, orig_method, orig_path) {
            Ok(common) => {
                &&& !common.clear_route_cache
                &&& common.body_mutation is Some ==> common.header_mutation is Some
                    && common.header_mutation->0.remove_headers.contains("content-length"@)
            },
            Err(_) => false,
        },
{
    let removals = final_removals(e);
    if e.body is Some {
        assert(removals[removals.len() - 1] == "content-length"@);
    }
}

fn push_setting(out: &mut Vec<HeaderSetting>, name: &str, value: &Option<String>)
    ensures
        setting_views(final(out)@) == setting_views(old(out)@) + setting_for(
            name@,
            text::optional(*value),
        ),
{
    let ghost before = setting_views(out@);
    if let Some(value) = value {
        let setting = overwrite(name, value.as_str());
        out.push(setting);
        assert(setting_views(out@) =~= before.push(overwriting(name@, value@)));
    }
    assert(setting_views(out@) =~= before + setting_for(name@, text::optional(*value)));
}

fn keep_changed(value: Option<String>, original: &str) -> (r: Option<String>)
    ensures
        text::optional(r) == changed(text::optional(value), original@),
{
    match value {
        Some(value) => if text::same(value.as_str(), original) {
            None
        } else {
            Some(value)
        },
        None => None,
    }
}

impl ExtProcActions {
    /// The physical request that the effects come to, to be produced instead of
    /// forwarded: method, path and body. What no effect changed is as it came.
    ///
    /// # Errors
    /// The fail-closed reply that was sent instead.
    pub fn transformed(self, orig_method: &str, orig_path: &str, orig_body: &[u8]) -> (r: Result<
        (String, String, Vec<u8>),
        ImmediateReply,
    >)
        ensures
            match r {
                Ok((method, path, body)) => physical_request(
                    self.state(),
                    orig_method@,
                    orig_path@,
                    orig_body@,
                ) == Ok::<(Seq<char>, Seq<char>, Seq<u8>), ReplyView>((method@, path@, body@)),
                Err(reply) => physical_request(
                    self.state(),
                    orig_method@,
                    orig_path@,
                    orig_body@,
                ) == Err::<(Seq<char>, Seq<char>, Seq<u8>), ReplyView>(reply@),
            },
    {
        if let Some(reply) = self.immediate {
            return Err(reply);
        }
        let method = match self.method {
            Some(method) => method,
            None => orig_method.to_owned(),
        };
        let path = match self.path {
            Some(path) => path,
            None => orig_path.to_owned(),
        };
        let body = match self.body {
            Some(body) => body,
            None => slice_to_vec(orig_body),
        };
        Ok((method, path, body))
    }

    /// The mutations that the effects come to. A request line that does not change is
    /// not set again, and a body that changes drops the client's content length.
    ///
    /// # Errors
    /// The fail-closed reply that was sent instead.
    pub fn finish(self, orig_method: &str, orig_path: &str) -> (r: Result<
        CommonResponse,
        ImmediateReply,
    >)
        ensures
            match r {
                Ok(common) => finished(self.state(), orig_method@, orig_path@) == Ok::<
                    CommonView,
                    ReplyView,
                >(common@),
                Err(reply) => finished(self.state(), orig_method@, orig_path@) == Err::<
                    CommonView,
                    ReplyView,
                >(reply@),
            },
    {
        let ghost e = self.state();
        if let Some(reply) = self.immediate {
            return Err(reply);
        }
        let mut set_headers = self.extra_headers;
        let mut remove_headers = self.remove_headers;
        let method = keep_changed(self.method, orig_method);
        let path = keep_changed(self.path, orig_path);
        push_setting(&mut set_headers, ":method", &method);
        push_setting(&mut set_headers, ":path", &path);
        push_setting(&mut set_headers, CLUSTER_HEADER, &self.cluster);
        push_setting(&mut set_headers, ":authority", &self.host);
        assert(setting_views(set_headers@) =~= final_settings(e, orig_method@, orig_path@));
        if self.body.is_some() {
            remove_headers.push("content-length".to_owned());
        }
        assert(string_views(remove_headers@) =~= final_removals(e));
        let header_mutation = if set_headers.len() == 0 && remove_headers.len() == 0 {
            None
        } else {
            Some(HeaderMutation { set_headers, remove_headers })
        };
        Ok(
            CommonResponse {
                header_mutation,
                body_mutation: self.body,
                clear_route_cache: false,
            },
        )
    }
}

/// What one stream keeps between its phases: the request headers, and the cap on the
/// request body.
#[derive(Debug, Clone)]
pub struct StreamState {
    /// The request headers, once they came.
    pub headers: Vec<(String, String)>,
    /// The cap on the request body.
    pub max_request_body_bytes: usize,
}

impl StreamState {
    /// A fresh state with the given cap.
    #[must_use]
    pub fn new(max_request_body_bytes: usize) -> (r: Self)
        ensures
            r.headers@.len() == 0,
            r.max_request_body_bytes == max_request_body_bytes,
    {
        StreamState { headers: Vec::new(), max_request_body_bytes }
    }
}

impl Default for StreamState {
    fn default() -> (r: Self)
        ensures
            r.headers@.len() == 0,
            r.max_request_body_bytes == DEFAULT_MAX_REQUEST_BODY_BYTES,
    {
        StreamState::new(DEFAULT_MAX_REQUEST_BODY_BYTES)
    }
}

/// One message of the proxy.
#[derive(Debug, Clone)]
pub enum ProcMessage {
    /// The request headers.
    RequestHeaders {
        /// The headers.
        headers: Vec<RawHeader>,
        /// Whether the request has no body.
        end_of_stream: bool,
    },
    /// The request body.
    RequestBody(Vec<u8>),
    /// The response headers.
    ResponseHeaders,
    /// The response body.
    ResponseBody(Vec<u8>),
    /// Any other message.
    Other,
}

/// The answer to one message.
#[derive(Debug, Clone)]
pub enum ProcResponse {
    /// To the request headers.
    RequestHeaders(CommonResponse),
    /// To the request body.
    RequestBody(CommonResponse),
    /// To the response headers.
    ResponseHeaders(CommonResponse),
    /// To the response body.
    ResponseBody(CommonResponse),
    /// A reply to the client, instead of going on.
    Immediate(ImmediateReply),
}

/// The view of a [`ProcResponse`].
pub enum AnswerView {
    /// To the request headers.
    RequestHeaders(CommonView),
    /// To the request body.
    RequestBody(CommonView),
    /// To the response headers.
    ResponseHeaders(CommonView),
    /// To the response body.
    ResponseBody(CommonView),
    /// A reply to the client.
    Immediate(ReplyView),
}

impl View for ProcResponse {
    type V = AnswerView;

    open spec fn view(&self) -> AnswerView {
        match self {
            ProcResponse::RequestHeaders(c) => AnswerView::RequestHeaders(c@),
            ProcResponse::RequestBody(c) => AnswerView::RequestBody(c@),
            ProcResponse::ResponseHeaders(c) => AnswerView::ResponseHeaders(c@),
            ProcResponse::ResponseBody(c) => AnswerView::ResponseBody(c@),
            ProcResponse::Immediate(r) => AnswerView::Immediate(r@),
        }
    }
}

/// The request phase that an answer is for.
#[derive(Debug, Clone, Copy, PartialEq, Eq, Structural)]
pub enum Phase {
    /// The headers.
    Headers,
    /// The body.
    Body,
}

/// What is left to do with a request that is to be routed.
#[derive(Debug, Clone)]
pub enum RouteWork {
    /// Explain it.
    Explain,
    /// Forward it.
    Forward {
        /// The effects so far.
        actions: ExtProcActions,
        /// The phase to answer.
        phase: Phase,
        /// The method of the request as it came.
        orig_method: String,
        /// The path of the request as it came, with its query.
        orig_path: String,
    },
    /// Queue it.
    Queue {
        /// The effects so far.
        actions: ExtProcActions,
        /// The method of the request as it came.
        orig_method: String,
        /// The path of the request as it came, with its query.
        orig_path: String,
    },
}

/// The view of a [`RouteWork`].
pub enum WorkView {
    /// Explain the request.
    Explain,
    /// Forward the request.
    Forward(EffectsView, Phase, Seq<char>, Seq<char>),
    /// Queue the request.
    Queue(EffectsView, Seq<char>, Seq<char>),
}

impl View for RouteWork {
    type V = WorkView;

    open spec fn view(&self) -> WorkView {
        match self {
            RouteWork::Explain => WorkView::Explain,
            RouteWork::Forward { actions, phase, orig_method, orig_path } => WorkView::Forward(
                actions.state(),
                *phase,
                orig_method@,
                orig_path@,
            ),
            RouteWork::Queue { actions, orig_method, orig_path } => WorkView::Queue(
                actions.state(),
                orig_method@,
                orig_path@,
            ),
        }
    }
}

/// What is left to do with a response whose request is to be resolved.
#[derive(Debug, Clone)]
pub enum AnswerWork {
    /// Report the decision for this request.
    Decision(FilterRequest),
    /// Reshape this body.
    Shape(Vec<u8>),
}

/// The view of an [`AnswerWork`].
pub enum AnswerWorkView {
    /// Report the decision for this request.
    Decision(RequestView),
    /// Reshape this body.
    Shape(Seq<u8>),
}

impl View for AnswerWork {
    type V = AnswerWorkView;

    open spec fn view(&self) -> AnswerWorkView {
        match self {
            AnswerWork::Decision(req) => AnswerWorkView::Decision(req@),
            AnswerWork::Shape(body) => AnswerWorkView::Shape(body@),
        }
    }
}

/// How far a message has got.
#[derive(Debug, Clone)]
pub enum ProcStep {
    /// It is answered.
    Done(ProcResponse),
    /// A request is to be routed, writes being admitted first; then [`on_outcome`].
    Route(RequestParts, RouteWork),
    /// A request is to be resolved; then [`on_answer`].
    Resolve(RequestParts, AnswerWork),
    /// A record is to be produced and acknowledged; then [`on_acked`].
    Produce(ProduceRequest),
}

/// The view of a [`ProcStep`].
pub enum StepView {
    /// It is answered.
    Done(AnswerView),
    /// A request is to be routed.
    Route(PartsView, WorkView),
    /// A request is to be resolved.
    Resolve(PartsView, AnswerWorkView),
    /// A record is to be produced.
    Produce(Seq<char>, Seq<u8>),
}

impl View for ProcStep {
    type V = StepView;

    open spec fn view(&self) -> StepView {
        match self {
            ProcStep::Done(response) => StepView::Done(response@),
            ProcStep::Route(parts, work) => StepView::Route(parts@, work@),
            ProcStep::Resolve(parts, work) => StepView::Resolve(parts@, work@),
            ProcStep::Produce(p) => StepView::Produce(p.path@, p.body@),
        }
    }
}

/// The surface with one more request routed.
pub open spec fn one_routed(o: ObserveView) -> ObserveView {
    ObserveView {
        metrics: MetricsView { routed: counted(o.metrics.routed), ..o.metrics },
        ..o
    }
}

/// The surface with one more request rejected.
pub open spec fn one_rejected(o: ObserveView) -> ObserveView {
    ObserveView {
        metrics: MetricsView { rejected: counted(o.metrics.rejected), ..o.metrics },
        ..o
    }
}

/// A step, and the observation surface after it.
pub type Stepped = (StepView, ObserveView);

/// A refusal of the request, which is counted.
pub open spec fn reject(o: ObserveView, reply: ReplyView) -> Stepped {
    (StepView::Done(AnswerView::Immediate(reply)), one_rejected(o))
}

/// The answer to a request phase.
pub open spec fn phase_answer(phase: Phase, common: CommonView) -> AnswerView {
    match phase {
        Phase::Headers => AnswerView::RequestHeaders(common),
        Phase::Body => AnswerView::RequestBody(common),
    }
}

/// A request whose effects are complete: forwarded, or refused; counted either way.
pub open spec fn conclude_of(
    o: ObserveView,
    e: EffectsView,
    phase: Phase,
    orig_method: Seq<char>,
    orig_path: Seq<char>,
) -> Stepped {
    match finished(e, orig_method, orig_path) {
        Ok(common) => (StepView::Done(phase_answer(phase, common)), one_routed(o)),
        Err(reply) => reject(o, reply),
    }
}

/// A queued request whose effects are complete: its record is to be produced, or it is
/// refused.
pub open spec fn queue_of(
    o: ObserveView,
    e: EffectsView,
    orig_method: Seq<char>,
    orig_path: Seq<char>,
    orig_body: Seq<u8>,
) -> Stepped {
    match physical_request(e, orig_method, orig_path, orig_body) {
        Ok((_, path, body)) => (StepView::Produce(path, body), o),
        Err(reply) => reject(o, reply),
    }
}

/// The synchronous way of a request: handle it and answer the phase.
pub open spec fn finalize_of(
    f: FilterView,
    o: ObserveView,
    req: RequestView,
    phase: Phase,
) -> Stepped {
    let e = after_all::<ExtProcActions>(no_effects(), begin_effects(begin(f, req)));
    match begin(f, req) {
        BeginView::Route(parts) => (
            StepView::Route(parts, WorkView::Forward(e, phase, req.method, req.path_and_query)),
            o,
        ),
        _ => conclude_of(o, e, phase, req.method, req.path_and_query),
    }
}

/// The asynchronous way of a request: only a write, and only with a sink.
pub open spec fn finalize_async_of(
    f: FilterView,
    o: ObserveView,
    req: RequestView,
    has_sink: bool,
) -> Stepped {
    if !request_writes(f, req) {
        reject(o, refused(400, "async_write_read_unsupported"@))
    } else if !has_sink {
        reject(o, refused(503, "async_write_unavailable"@))
    } else {
        let e = after_all::<ExtProcActions>(no_effects(), begin_effects(begin(f, req)));
        match begin(f, req) {
            BeginView::Route(parts) => (
                StepView::Route(parts, WorkView::Queue(e, req.method, req.path_and_query)),
                o,
            ),
            _ => queue_of(o, e, req.method, req.path_and_query, req.body),
        }
    }
}

/// Whether headers ask for asynchronous mode.
pub open spec fn any_asks_async(headers: Seq<HeaderView>) -> bool {
    exists|i: int| 0 <= i < headers.len() && asks_async(#[trigger] headers[i])
}

/// The way of a request whose headers and body are there.
pub open spec fn dispatch_of(
    f: FilterView,
    o: ObserveView,
    has_sink: bool,
    headers: Seq<HeaderView>,
    body: Seq<u8>,
    phase: Phase,
) -> Stepped {
    let req = request_of(headers, None, body);
    if any_asks_async(headers) {
        finalize_async_of(f, o, req, has_sink)
    } else {
        finalize_of(f, o, req, phase)
    }
}

/// The reply to a reserved path that needs no tenancy.
pub open spec fn ok_reply(body: Seq<u8>) -> AnswerView {
    AnswerView::Immediate(ReplyView { status: 200, body })
}

/// The answer to the request headers: a reserved path is answered by the filter; a
/// request without a body goes its way; any other waits for its body.
pub open spec fn on_headers(
    f: FilterView,
    o: ObserveView,
    has_sink: bool,
    headers: Seq<HeaderView>,
    end_of_stream: bool,
) -> Stepped {
    match reserved(headers) {
        ReservedView::Metrics => (
            StepView::Done(ok_reply(vstd::utf8::encode_utf8(metrics_text(o.metrics)))),
            o,
        ),
        ReservedView::Admin => (
            StepView::Done(AnswerView::Immediate(admin_reply_of(o, headers))),
            ObserveView { emits: emits_after_admin(o, headers), ..o },
        ),
        ReservedView::Explain(target) => {
            let req = request_of(headers, Some(target), seq![]);
            match begin(f, req) {
                BeginView::Route(parts) => (StepView::Route(parts, WorkView::Explain), o),
                _ => (
                    StepView::Done(
                        ok_reply(vstd::utf8::encode_utf8(explained_unasked(f, req)->0)),
                    ),
                    o,
                ),
            }
        },
        ReservedView::No => if end_of_stream {
            dispatch_of(f, o, has_sink, headers, seq![], Phase::Headers)
        } else {
            (StepView::Done(AnswerView::RequestHeaders(unchanged())), o)
        },
    }
}

/// The answer to the request body: one over the cap is refused before it is looked at.
pub open spec fn on_body(
    f: FilterView,
    o: ObserveView,
    has_sink: bool,
    headers: Seq<HeaderView>,
    cap: usize,
    body: Seq<u8>,
) -> Stepped {
    if body.len() > cap {
        reject(o, refused(413, "payload_too_large"@))
    } else {
        dispatch_of(f, o, has_sink, headers, body, Phase::Body)
    }
}

/// The answer that sets the decision header, where there is a decision.
pub open spec fn decision_answer(shape: Option<Seq<char>>) -> AnswerView {
    AnswerView::ResponseHeaders(
        match shape {
            Some(shape) => CommonView {
                header_mutation: Some(
                    MutationView {
                        set_headers: seq![overwriting(DECISION_HEADER@, shape)],
                        remove_headers: seq![],
                    },
                ),
                body_mutation: None,
                clear_route_cache: false,
            },
            None => unchanged(),
        },
    )
}

/// The answer that replaces the response body, where it was reshaped.
pub open spec fn shape_answer(shaped: Option<Seq<u8>>) -> AnswerView {
    AnswerView::ResponseBody(
        match shaped {
            Some(body) => CommonView {
                header_mutation: Some(
                    MutationView { set_headers: seq![], remove_headers: seq!["content-length"@] },
                ),
                body_mutation: Some(body),
                clear_route_cache: false,
            },
            None => unchanged(),
        },
    )
}

/// The first step of the response headers.
pub open spec fn on_response_headers(
    f: FilterView,
    o: ObserveView,
    headers: Seq<HeaderView>,
) -> StepView {
    let req = request_of(headers, None, seq![]);
    if !o.emits {
        StepView::Done(decision_answer(None))
    } else {
        match tenant_parts(f, req) {
            Some(parts) => StepView::Resolve(parts, AnswerWorkView::Decision(req)),
            None => StepView::Done(decision_answer(None)),
        }
    }
}

/// The first step of the response body.
pub open spec fn on_response_body(
    f: FilterView,
    headers: Seq<HeaderView>,
    body: Seq<u8>,
) -> StepView {
    match tenant_parts(f, request_of(headers, None, seq![])) {
        Some(parts) => StepView::Resolve(parts, AnswerWorkView::Shape(body)),
        None => StepView::Done(shape_answer(None)),
    }
}

/// The first step of a message.
pub open spec fn first_step(
    f: FilterView,
    o: ObserveView,
    has_sink: bool,
    headers: Seq<HeaderView>,
    cap: usize,
    message: ProcMessage,
) -> Stepped {
    match message {
        ProcMessage::RequestHeaders { headers: raw, end_of_stream } => on_headers(
            f,
            o,
            has_sink,
            read_headers(raw_views(raw@)),
            end_of_stream,
        ),
        ProcMessage::RequestBody(body) => on_body(f, o, has_sink, headers, cap, body@),
        ProcMessage::ResponseHeaders => (on_response_headers(f, o, headers), o),
        ProcMessage::ResponseBody(body) => (on_response_body(f, headers, body@), o),
        ProcMessage::Other => (StepView::Done(AnswerView::RequestBody(unchanged())), o),
    }
}

/// The step after a request was routed.
pub open spec fn outcome_step(
    o: ObserveView,
    parts: PartsView,
    work: WorkView,
    outcome: OutcomeView,
) -> Stepped {
    match work {
        WorkView::Explain => (
            StepView::Done(ok_reply(vstd::utf8::encode_utf8(explanation(parts, outcome)))),
            o,
        ),
        WorkView::Forward(e, phase, orig_method, orig_path) => conclude_of(
            o,
            after_all::<ExtProcActions>(e, forward_effects(prepared(parts, outcome))),
            phase,
            orig_method,
            orig_path,
        ),
        WorkView::Queue(e, orig_method, orig_path) => queue_of(
            o,
            after_all::<ExtProcActions>(e, forward_effects(prepared(parts, outcome))),
            orig_method,
            orig_path,
            parts.body,
        ),
    }
}

/// The answer after a response's request was resolved.
pub open spec fn answer_step(
    f: FilterView,
    parts: PartsView,
    work: AnswerWorkView,
    answer: Resolution,
) -> AnswerView {
    match work {
        AnswerWorkView::Decision(req) => decision_answer(traced_shape(f, req, answer)),
        AnswerWorkView::Shape(body) => shape_answer(shaped_read(parts, answer, body)),
    }
}

/// The answer after a record was produced.
pub open spec fn acked_step(
    o: ObserveView,
    path: Seq<char>,
    body: Seq<u8>,
    acked: bool,
) -> (AnswerView, ObserveView) {
    (
        AnswerView::Immediate(async_answer(path, body, acked)),
        if acked {
            one_routed(o)
        } else {
            one_rejected(o)
        },
    )
}

/// An over-long body is refused unread: whatever the filter, the headers and the body
/// hold, the answer is `413`, and one more request counts as rejected.
pub proof fn over_long_bodies_are_refused(
    f: FilterView,
    o: ObserveView,
    has_sink: bool,
    headers: Seq<HeaderView>,
    cap: usize,
    body: Seq<u8>,
)
    requires
        body.len() > cap,
    ensures
        on_body(f, o, has_sink, headers, cap, body) == reject(
            o,
            refused(413, "payload_too_large"@),
        ),
{
}

/// A configured sink makes no difference to a request that does not ask for
/// asynchronous mode.
pub proof fn synchronous_requests_ignore_the_sink(
    f: FilterView,
    o: ObserveView,
    headers: Seq<HeaderView>,
    body: Seq<u8>,
    phase: Phase,
)
    requires
        !any_asks_async(headers),
    ensures
        dispatch_of(f, o, true, headers, body, phase) == dispatch_of(
            f,
            o,
            false,
            headers,
            body,
            phase,
        ),
{
}

/// A request that asks for asynchronous mode is never forwarded: it is answered by the
/// filter itself, or its record is produced, whatever the tenancy says about it.
pub proof fn queued_requests_are_never_forwarded(
    f: FilterView,
    o: ObserveView,
    has_sink: bool,
    headers: Seq<HeaderView>,
    body: Seq<u8>,
    phase: Phase,
    outcome: OutcomeView,
)
    requires
        any_asks_async(headers),
    ensures
        match dispatch_of(f, o, has_sink, headers, body, phase).0 {
            StepView::Route(parts, work) => {
                &&& has_sink
                &&& work is Queue
                &&& stays_here(outcome_step(o, parts, work, outcome).0)
            },
            step => stays_here(step),
        },
{
}

/// Whether a step ends with a reply of the filter's own, or with a record.
pub open spec fn stays_here(step: StepView) -> bool {
    match step {
        StepView::Done(AnswerView::Immediate(_)) => true,
        StepView::Produce(_, _) => true,
        _ => false,
    }
}

/// A write that bypasses tenancy is queued as it came: its record carries its own body,
/// and its own path and query but for the tenant that path partitioning takes off.
pub proof fn untransformed_requests_are_queued_whole(
    f: FilterView,
    o: ObserveView,
    req: RequestView,
)
    requires
        request_writes(f, req),
        begin(f, req) is Pass,
    ensures
        finalize_async_of(f, o, req, true) == (
            StepView::Produce(effective(f, req).path_and_query, req.body),
            o,
        ),
{
    reveal_with_fuel(after_all, 2);
    let effects = begin_effects(begin(f, req));
    if effects.len() > 0 {
        assert(effects.drop_last() =~= Seq::<Effect>::empty());
    }
}

/// A request on a reserved path is answered by the filter itself: it is never
/// forwarded, and it is not counted.
pub proof fn reserved_requests_are_not_counted(
    f: FilterView,
    o: ObserveView,
    has_sink: bool,
    headers: Seq<HeaderView>,
    end_of_stream: bool,
    outcome: OutcomeView,
)
    requires
        !(reserved(headers) is No),
    ensures
        ({
            let (step, after) = on_headers(f, o, has_sink, headers, end_of_stream);
            &&& after.metrics == o.metrics
            &&& match step {
                StepView::Route(parts, work) => {
                    let (last, end) = outcome_step(after, parts, work, outcome);
                    stays_here(last) && end == after
                },
                step => stays_here(step),
            }
        }),
{
}

/// Every request is counted once: concluding one moves exactly one of the two counters
/// by one, and leaves the rest of the surface alone.
pub proof fn concluding_counts_once(
    o: ObserveView,
    e: EffectsView,
    phase: Phase,
    orig_method: Seq<char>,
    orig_path: Seq<char>,
)
    ensures
        ({
            let (step, after) = conclude_of(o, e, phase, orig_method, orig_path);
            if e.immediate is None {
                after == one_routed(o) && step == StepView::Done(
                    phase_answer(phase, finished(e, orig_method, orig_path)->Ok_0),
                )
            } else {
                after == one_rejected(o) && step == StepView::Done(
                    AnswerView::Immediate(e.immediate->0),
                )
            }
        }),
{
}

fn rejected(observe: &mut Observe, reply: ImmediateReply) -> (step: ProcStep)
    ensures
        (step@, final(observe)@) == reject(old(observe)@, reply@),
{
    observe.record_rejected();
    ProcStep::Done(ProcResponse::Immediate(reply))
}

fn conclude(
    observe: &mut Observe,
    actions: ExtProcActions,
    phase: Phase,
    orig_method: &str,
    orig_path: &str,
) -> (step: ProcStep)
    ensures
        (step@, final(observe)@) == conclude_of(
            old(observe)@,
            actions.state(),
            phase,
            orig_method@,
            orig_path@,
        ),
{
    match actions.finish(orig_method, orig_path) {
        Ok(common) => {
            observe.record_routed();
            match phase {
                Phase::Headers => ProcStep::Done(ProcResponse::RequestHeaders(common)),
                Phase::Body => ProcStep::Done(ProcResponse::RequestBody(common)),
            }
        },
        Err(reply) => rejected(observe, reply),
    }
}

fn queue(
    observe: &mut Observe,
    actions: ExtProcActions,
    orig_method: &str,
    orig_path: &str,
    orig_body: &[u8],
) -> (step: ProcStep)
    ensures
        (step@, final(observe)@) == queue_of(
            old(observe)@,
            actions.state(),
            orig_method@,
            orig_path@,
            orig_body@,
        ),
{
    match actions.transformed(orig_method, orig_path, orig_body) {
        Ok((_, path, body)) => ProcStep::Produce(ProduceRequest { path, body }),
        Err(reply) => rejected(observe, reply),
    }
}

/// Runs the filter and answers the phase, counting what became of the request.
fn finalize<R>(filter: &Filter<R>, observe: &mut Observe, req: &FilterRequest, phase: Phase) -> (step:
    ProcStep)
    ensures
        (step@, final(observe)@) == finalize_of(filter@, old(observe)@, req@, phase),
{
    let mut actions = ExtProcActions::default();
    match filter.handle(req, &mut actions) {
        HandleStep::Done(_) => conclude(
            observe,
            actions,
            phase,
            req.method.as_str(),
            req.path_and_query.as_str(),
        ),
        HandleStep::Route(parts) => ProcStep::Route(
            parts,
            RouteWork::Forward {
                actions,
                phase,
                orig_method: req.method.clone(),
                orig_path: req.path_and_query.clone(),
            },
        ),
    }
}

/// The asynchronous way: refuses rather than promise what cannot be kept.
fn finalize_async<R>(
    filter: &Filter<R>,
    observe: &mut Observe,
    req: &FilterRequest,
    has_sink: bool,
) -> (step: ProcStep)
    ensures
        (step@, final(observe)@) == finalize_async_of(filter@, old(observe)@, req@, has_sink),
{
    if !filter.is_write(req) {
        return rejected(observe, refuse(400, "async_write_read_unsupported"));
    }
    if !has_sink {
        return rejected(observe, refuse(503, "async_write_unavailable"));
    }
    let mut actions = ExtProcActions::default();
    match filter.handle(req, &mut actions) {
        HandleStep::Done(_) => queue(
            observe,
            actions,
            req.method.as_str(),
            req.path_and_query.as_str(),
            req.body.as_slice(),
        ),
        HandleStep::Route(parts) => ProcStep::Route(
            parts,
            RouteWork::Queue {
                actions,
                orig_method: req.method.clone(),
                orig_path: req.path_and_query.clone(),
            },
        ),
    }
}

/// Sends a request its way, asynchronous where its headers ask for it.
fn dispatch_write<R>(
    filter: &Filter<R>,
    observe: &mut Observe,
    has_sink: bool,
    headers: &[(String, String)],
    body: Vec<u8>,
    phase: Phase,
) -> (step: ProcStep)
    ensures
        (step@, final(observe)@) == dispatch_of(
            filter@,
            old(observe)@,
            has_sink,
            header_views(headers@),
            body@,
            phase,
        ),
{
    let req = request_from_headers(headers, None, body);
    if wants_async(headers) {
        finalize_async(filter, observe, &req, has_sink)
    } else {
        finalize(filter, observe, &req, phase)
    }
}

/// The answer to the response headers.
fn response_headers(decision: Option<String>) -> (r: ProcResponse)
    ensures
        r@ == decision_answer(text::optional(decision)),
{
    match decision {
        Some(shape) => {
            let set_headers: Vec<HeaderSetting> = vec![overwrite(DECISION_HEADER, shape.as_str())];
            let remove_headers: Vec<String> = Vec::new();
            assert(setting_views(set_headers@) =~= seq![overwriting(DECISION_HEADER@, shape@)]);
            assert(string_views(remove_headers@) =~= Seq::<Seq<char>>::empty());
            ProcResponse::ResponseHeaders(
                CommonResponse {
                    header_mutation: Some(HeaderMutation { set_headers, remove_headers }),
                    body_mutation: None,
                    clear_route_cache: false,
                },
            )
        },
        None => ProcResponse::ResponseHeaders(CommonResponse::default()),
    }
}

/// The answer to the response body: a reshaped body changes its length, so the
/// upstream's content length is dropped.
fn response_body(shaped: Option<Vec<u8>>) -> (r: ProcResponse)
    ensures
        r@ == shape_answer(
            match shaped {
                Some(body) => Some(body@),
                None => None,
            },
        ),
{
    match shaped {
        Some(body) => {
            let set_headers: Vec<HeaderSetting> = Vec::new();
            let remove_headers: Vec<String> = vec!["content-length".to_owned()];
            assert(setting_views(set_headers@) =~= Seq::<SettingView>::empty());
            assert(string_views(remove_headers@) =~= seq!["content-length"@]);
            ProcResponse::ResponseBody(
                CommonResponse {
                    header_mutation: Some(HeaderMutation { set_headers, remove_headers }),
                    body_mutation: Some(body),
                    clear_route_cache: false,
                },
            )
        },
        None => ProcResponse::ResponseBody(CommonResponse::default()),
    }
}

/// Processes the request headers, which `state` now keeps.
fn process_headers<R>(
    filter: &Filter<R>,
    observe: &mut Observe,
    has_sink: bool,
    headers: &[(String, String)],
    end_of_stream: bool,
) -> (step: ProcStep)
    ensures
        (step@, final(observe)@) == on_headers(
            filter@,
            old(observe)@,
            has_sink,
            header_views(headers@),
            end_of_stream,
        ),
{
    match observe.reserved_reply(headers) {
        ReservedStep::Done(reply) => ProcStep::Done(ProcResponse::Immediate(reply)),
        ReservedStep::Explain(req) => match filter.explain(&req) {
            ExplainStep::Route(parts) => ProcStep::Route(parts, RouteWork::Explain),
            ExplainStep::Done(line) => ProcStep::Done(
                ProcResponse::Immediate(
                    ImmediateReply { status: 200, body: text::bytes_of(line.as_str()) },
                ),
            ),
        },
        ReservedStep::NotReserved => if end_of_stream {
            let body: Vec<u8> = Vec::new();
            assert(body@ =~= Seq::<u8>::empty());
            dispatch_write(filter, observe, has_sink, headers, body, Phase::Headers)
        } else {
            ProcStep::Done(ProcResponse::RequestHeaders(CommonResponse::default()))
        },
    }
}

/// Processes one message as far as it goes without the tenancy and the broker. The
/// request headers are kept; the request is rewritten once its body is there, or at
/// once where it has none.
pub fn process_message<R>(
    filter: &Filter<R>,
    observe: &mut Observe,
    has_sink: bool,
    state: &mut StreamState,
    message: ProcMessage,
) -> (step: ProcStep)
    ensures
        (step@, final(observe)@) == first_step(
            filter@,
            old(observe)@,
            has_sink,
            header_views(old(state).headers@),
            old(state).max_request_body_bytes,
            message,
        ),
        final(state).max_request_body_bytes == old(state).max_request_body_bytes,
        header_views(final(state).headers@) == match message {
            ProcMessage::RequestHeaders { headers, .. } => read_headers(raw_views(headers@)),
            _ => header_views(old(state).headers@),
        },
{
    match message {
        ProcMessage::RequestHeaders { headers, end_of_stream } => {
            state.headers = extract_headers(headers.as_slice());
            process_headers(filter, observe, has_sink, state.headers.as_slice(), end_of_stream)
        },
        ProcMessage::RequestBody(body) => {
            if body.len() > state.max_request_body_bytes {
                return rejected(observe, refuse(413, "payload_too_large"));
            }
            dispatch_write(
                filter,
                observe,
                has_sink,
                state.headers.as_slice(),
                body,
                Phase::Body,
            )
        },
        ProcMessage::ResponseHeaders => match observe.decision_header(state.headers.as_slice()) {
            Some(req) => match filter.parts(&req) {
                Some(parts) => ProcStep::Resolve(parts, AnswerWork::Decision(req)),
                None => ProcStep::Done(response_headers(None)),
            },
            None => ProcStep::Done(response_headers(None)),
        },
        ProcMessage::ResponseBody(body) => {
            let none: Vec<u8> = Vec::new();
            assert(none@ =~= Seq::<u8>::empty());
            let req = request_from_headers(state.headers.as_slice(), None, none);
            match filter.parts(&req) {
                Some(parts) => ProcStep::Resolve(parts, AnswerWork::Shape(body)),
                None => ProcStep::Done(response_body(None)),
            }
        },
        ProcMessage::Other => ProcStep::Done(ProcResponse::RequestBody(CommonResponse::default())),
    }
}

/// Goes on with a request that was routed.
pub fn on_outcome<R>(
    filter: &Filter<R>,
    observe: &mut Observe,
    parts: &RequestParts,
    work: RouteWork,
    outcome: &RouteOutcome,
) -> (step: ProcStep)
    ensures
        (step@, final(observe)@) == outcome_step(old(observe)@, parts@, work@, outcome@),
        !(work is Explain) ==> forwards_in_partition(parts@, outcome@),
{
    match work {
        RouteWork::Explain => {
            let line = filter.explain_outcome(parts, outcome);
            ProcStep::Done(
                ProcResponse::Immediate(
                    ImmediateReply { status: 200, body: text::bytes_of(line.as_str()) },
                ),
            )
        },
        RouteWork::Forward { actions, phase, orig_method, orig_path } => {
            let mut actions = actions;
            let _decision = filter.forward(parts, outcome, &mut actions);
            conclude(observe, actions, phase, orig_method.as_str(), orig_path.as_str())
        },
        RouteWork::Queue { actions, orig_method, orig_path } => {
            let mut actions = actions;
            let _decision = filter.forward(parts, outcome, &mut actions);
            queue(
                observe,
                actions,
                orig_method.as_str(),
                orig_path.as_str(),
                parts.ctx().body(),
            )
        },
    }
}

/// Goes on with a response whose request was resolved.
#[must_use]
pub fn on_answer<R>(
    filter: &Filter<R>,
    parts: &RequestParts,
    work: &AnswerWork,
    answer: &Result<Resolved, SpiError>,
) -> (r: ProcResponse)
    ensures
        r@ == answer_step(filter@, parts@, work@, resolution(*answer)),
{
    match work {
        AnswerWork::Decision(req) => response_headers(filter.decision_shape(req, answer)),
        AnswerWork::Shape(body) => response_body(
            filter.shape_response(parts, answer, body.as_slice()),
        ),
    }
}

/// Goes on with a record that was produced, and acknowledged or not.
pub fn on_acked(observe: &mut Observe, produced: &ProduceRequest, acked: bool) -> (r: ProcResponse)
    ensures
        (r@, final(observe)@) == acked_step(
            old(observe)@,
            produced.path@,
            produced.body@,
            acked,
        ),
{
    if acked {
        observe.record_routed();
    } else {
        observe.record_rejected();
    }
    ProcResponse::Immediate(async_acked(produced, acked))
}

/// Header mutations leave the rest of a recording alone.
proof fn lemma_after_ops(e: EffectsView, ops: Seq<HeaderOpView>)
    ensures
        ({
            let r = after_all::<ExtProcActions>(e, op_effects(ops));
            &&& r.method == e.method
            &&& r.path == e.path
            &&& r.cluster == e.cluster
            &&& r.host == e.host
            &&& r.body == e.body
            &&& r.immediate == e.immediate
            &&& forall|i: int|
                0 <= i < ops.len() ==> match #[trigger] ops[i] {
                    HeaderOpView::Add(name, value) => r.extra_headers.contains(
                        overwriting(name, value),
                    ),
                    HeaderOpView::Replace(name, value) => r.extra_headers.contains(
                        overwriting(name, value),
                    ),
                    HeaderOpView::Remove(name) => r.remove_headers.contains(name),
                }
            &&& e.extra_headers.is_prefix_of(r.extra_headers)
            &&& e.remove_headers.is_prefix_of(r.remove_headers)
            &&& ops.len() == 0 ==> r == e
        }),
    decreases ops.len(),
{
    let all = op_effects(ops);
    let r = after_all::<ExtProcActions>(e, all);
    if ops.len() > 0 {
        let front = ops.drop_last();
        assert(all.drop_last() =~= op_effects(front));
        lemma_after_ops(e, front);
        let before = after_all::<ExtProcActions>(e, op_effects(front));
        assert(before.extra_headers.is_prefix_of(r.extra_headers));
        assert(before.remove_headers.is_prefix_of(r.remove_headers));
        assert(e.extra_headers.is_prefix_of(r.extra_headers));
        assert(e.remove_headers.is_prefix_of(r.remove_headers));
        assert forall|i: int| 0 <= i < ops.len() implies match #[trigger] ops[i] {
            HeaderOpView::Add(name, value) => r.extra_headers.contains(overwriting(name, value)),
            HeaderOpView::Replace(name, value) => r.extra_headers.contains(
                overwriting(name, value),
            ),
            HeaderOpView::Remove(name) => r.remove_headers.contains(name),
        } by {
            if i < front.len() {
                assert(front[i] == ops[i]);
                match ops[i] {
                    HeaderOpView::Add(name, value) => {
                        let k = choose|k: int|
                            0 <= k < before.extra_headers.len() && before.extra_headers[k]
                                == overwriting(name, value);
                        assert(r.extra_headers[k] == before.extra_headers[k]);
                    },
                    HeaderOpView::Replace(name, value) => {
                        let k = choose|k: int|
                            0 <= k < before.extra_headers.len() && before.extra_headers[k]
                                == overwriting(name, value);
                        assert(r.extra_headers[k] == before.extra_headers[k]);
                    },
                    HeaderOpView::Remove(name) => {
                        let k = choose|k: int|
                            0 <= k < before.remove_headers.len() && before.remove_headers[k]
                                == name;
                        assert(r.remove_headers[k] == before.remove_headers[k]);
                    },
                }
            } else {
                match ops[i] {
                    HeaderOpView::Add(name, value) => {
                        assert(r.extra_headers.last() == overwriting(name, value));
                    },
                    HeaderOpView::Replace(name, value) => {
                        assert(r.extra_headers.last() == overwriting(name, value));
                    },
                    HeaderOpView::Remove(name) => {
                        assert(r.remove_headers.last() == name);
                    },
                }
            }
        }
    }
}

/// A forwarded request is recorded whole: its method, path, body, cluster and authority
/// are those of the forward, and there is no reply. A refused one is recorded as its
/// reply.
pub proof fn forwards_are_recorded_whole(f: PreparedView, reply: ResponseView)
    ensures
        ({
            let e = after_all::<ExtProcActions>(
                no_effects(),
                forward_effects(ForwardView::Upstream(f)),
            );
            &&& e.method == Some(f.method)
            &&& e.path == Some(f.path)
            &&& e.body == Some(f.body)
            &&& e.cluster == Some(f.cluster)
            &&& e.host == f.upstream_host
            &&& e.immediate is None
            &&& forall|i: int|
                0 <= i < f.header_ops.len() ==> match #[trigger] f.header_ops[i] {
                    HeaderOpView::Add(name, value) => e.extra_headers.contains(
                        overwriting(name, value),
                    ),
                    HeaderOpView::Replace(name, value) => e.extra_headers.contains(
                        overwriting(name, value),
                    ),
                    HeaderOpView::Remove(name) => e.remove_headers.contains(name),
                }
        }),
        after_all::<ExtProcActions>(
            no_effects(),
            forward_effects(ForwardView::Immediate(reply)),
        ).immediate == Some(ReplyView { status: reply.status, body: reply.body }),
{
    let ops = op_effects(f.header_ops);
    let all = forward_effects(ForwardView::Upstream(f));
    let head = all.take(all.len() - ops.len());
    assert(all =~= head + ops);
    lemma_after_concat::<ExtProcActions>(no_effects(), head, ops);
    reveal_with_fuel(after_all, 6);
    assert(head.drop_last().drop_last().drop_last() =~= if f.upstream_host is Some {
        seq![Effect::Cluster(f.cluster), Effect::Host(f.upstream_host->0)]
    } else {
        seq![Effect::Cluster(f.cluster)]
    });
    let start = after_all::<ExtProcActions>(no_effects(), head);
    assert(head.drop_last().drop_last().drop_last().drop_last() =~= if f.upstream_host is Some {
        seq![Effect::Cluster(f.cluster)]
    } else {
        Seq::<Effect>::empty()
    });
    assert(seq![Effect::Cluster(f.cluster)].drop_last() =~= Seq::<Effect>::empty());
    lemma_after_ops(start, f.header_ops);
    let one = forward_effects(ForwardView::Immediate(reply));
    assert(one.drop_last() =~= Seq::<Effect>::empty());
}

/// The setting that makes a header what it should be: the bytes of the value, under the
/// action that overwrites or adds.
pub open spec fn sets(name: Seq<char>, value: Seq<char>) -> SettingView {
    SettingView {
        key: name,
        value: seq![],
        raw_value: vstd::utf8::encode_utf8(value),
        append_action: 2,
    }
}

/// What a recording comes to, where nothing was replied. The method and the path are set
/// exactly where they differ from what came, the cluster under its own header and the
/// authority always; the recorded headers come first. The body is replaced exactly where
/// one was set, and takes the client's length with it; what was to be removed is removed;
/// and a recording without any of this changes nothing.
pub proof fn recordings_come_to_their_mutations(
    e: EffectsView,
    orig_method: Seq<char>,
    orig_path: Seq<char>,
)
    requires
        e.immediate is None,
    ensures
        finished(e, orig_method, orig_path) is Ok,
        ({
            let common = finished(e, orig_method, orig_path)->Ok_0;
            let all = final_settings(e, orig_method, orig_path);
            &&& common.body_mutation == e.body
            &&& !common.clear_route_cache
            &&& common.header_mutation is None <==> all.len() == 0 && e.remove_headers.len() == 0
                && e.body is None
            &&& common.header_mutation is Some ==> common.header_mutation->0.set_headers == all
            &&& common.header_mutation is Some ==> common.header_mutation->0.remove_headers
                == if e.body is Some {
                e.remove_headers.push("content-length"@)
            } else {
                e.remove_headers
            }
            &&& e.extra_headers.is_prefix_of(all)
            &&& e.method is Some && e.method->0 != orig_method ==> all.contains(
                sets(":method"@, e.method->0),
            )
            &&& e.path is Some && e.path->0 != orig_path ==> all.contains(
                sets(":path"@, e.path->0),
            )
            &&& e.cluster is Some ==> all.contains(sets("x-evoxy-cluster"@, e.cluster->0))
            &&& e.host is Some ==> all.contains(sets(":authority"@, e.host->0))
            &&& all.len() == e.extra_headers.len() + (if e.method is Some && e.method->0
                != orig_method {
                1int
            } else {
                0
            }) + (if e.path is Some && e.path->0 != orig_path {
                1int
            } else {
                0
            }) + (if e.cluster is Some {
                1int
            } else {
                0
            }) + (if e.host is Some {
                1int
            } else {
                0
            })
        }),
{
    let all = final_settings(e, orig_method, orig_path);
    let a = e.extra_headers;
    let b = a + setting_for(":method"@, changed(e.method, orig_method));
    let c = b + setting_for(":path"@, changed(e.path, orig_path));
    let d = c + setting_for(CLUSTER_HEADER@, e.cluster);
    assert(all == d + setting_for(":authority"@, e.host));
    if e.method is Some && e.method->0 != orig_method {
        assert(all[a.len() as int] == sets(":method"@, e.method->0));
    }
    if e.path is Some && e.path->0 != orig_path {
        assert(all[b.len() as int] == sets(":path"@, e.path->0));
    }
    if e.cluster is Some {
        assert(all[c.len() as int] == sets("x-evoxy-cluster"@, e.cluster->0));
    }
    if e.host is Some {
        assert(all[d.len() as int] == sets(":authority"@, e.host->0));
    }
}

/// A record is what the request would have been: each part as it was set, or else as it
/// came. A reply is no record.
pub proof fn records_are_what_would_be_forwarded(
    e: EffectsView,
    orig_method: Seq<char>,
    orig_path: Seq<char>,
    orig_body: Seq<u8>,
)
    ensures
        match physical_request(e, orig_method, orig_path, orig_body) {
            Ok((method, path, body)) => {
                &&& e.immediate is None
                &&& e.method is Some ==> method == e.method->0
                &&& e.method is None ==> method == orig_method
                &&& e.path is Some ==> path == e.path->0
                &&& e.path is None ==> path == orig_path
                &&& e.body is Some ==> body == e.body->0
                &&& e.body is None ==> body == orig_body
            },
            Err(reply) => e.immediate == Some(reply),
        },
{
}

/// What each message is answered with before anything is asked: request headers wait for
/// the body unless there is none, an unknown message changes nothing, and a response whose
/// decision is silenced, or that is none of the tenancy's, is left alone.
pub proof fn messages_are_answered_by_kind(
    f: FilterView,
    o: ObserveView,
    has_sink: bool,
    headers: Seq<HeaderView>,
    cap: usize,
    body: Seq<u8>,
    message: ProcMessage,
)
    ensures
        match message {
            ProcMessage::ResponseHeaders => first_step(f, o, has_sink, headers, cap, message) == (
                match tenant_parts(f, request_of(headers, None, seq![])) {
                    Some(parts) => if o.emits {
                        StepView::Resolve(
                            parts,
                            AnswerWorkView::Decision(request_of(headers, None, seq![])),
                        )
                    } else {
                        StepView::Done(decision_answer(None))
                    },
                    None => StepView::Done(decision_answer(None)),
                },
                o,
            ),
            ProcMessage::ResponseBody(upstream) => first_step(
                f,
                o,
                has_sink,
                headers,
                cap,
                message,
            ) == (
                match tenant_parts(f, request_of(headers, None, seq![])) {
                    Some(parts) => StepView::Resolve(parts, AnswerWorkView::Shape(upstream@)),
                    None => StepView::Done(shape_answer(None)),
                },
                o,
            ),
            ProcMessage::RequestBody(sent) => first_step(f, o, has_sink, headers, cap, message)
                == on_body(f, o, has_sink, headers, cap, sent@),
            ProcMessage::RequestHeaders { headers: raw, end_of_stream } => first_step(
                f,
                o,
                has_sink,
                headers,
                cap,
                message,
            ) == on_headers(f, o, has_sink, read_headers(raw_views(raw@)), end_of_stream),
            ProcMessage::Other => true,
        },
        reserved(headers) is No ==> on_headers(f, o, has_sink, headers, false) == (
            StepView::Done(
                AnswerView::RequestHeaders(
                    CommonView {
                        header_mutation: None,
                        body_mutation: None,
                        clear_route_cache: false,
                    },
                ),
            ),
            o,
        ),
        reserved(headers) is No ==> on_headers(f, o, has_sink, headers, true) == dispatch_of(
            f,
            o,
            has_sink,
            headers,
            seq![],
            Phase::Headers,
        ),
        body.len() <= cap ==> on_body(f, o, has_sink, headers, cap, body) == dispatch_of(
            f,
            o,
            has_sink,
            headers,
            body,
            Phase::Body,
        ),
        first_step(f, o, has_sink, headers, cap, ProcMessage::Other) == (
            StepView::Done(
                AnswerView::RequestBody(
                    CommonView {
                        header_mutation: None,
                        body_mutation: None,
                        clear_route_cache: false,
                    },
                ),
            ),
            o,
        ),
        !o.emits ==> on_response_headers(f, o, headers) == StepView::Done(
            AnswerView::ResponseHeaders(
                CommonView {
                    header_mutation: None,
                    body_mutation: None,
                    clear_route_cache: false,
                },
            ),
        ),
{
}

/// A request goes the asynchronous way exactly where a header asks for it, and then only
/// as a write with a sink.
pub proof fn requests_go_the_way_they_ask_for(
    f: FilterView,
    o: ObserveView,
    has_sink: bool,
    headers: Seq<HeaderView>,
    body: Seq<u8>,
    phase: Phase,
)
    ensures
        ({
            let req = request_of(headers, None, body);
            let asked = exists|i: int|
                0 <= i < headers.len() && text::lower((#[trigger] headers[i]).0) == text::lower(
                    "x-evoxy-write-mode"@,
                ) && text::lower(headers[i].1) == text::lower("async"@);
            &&& !asked ==> dispatch_of(f, o, has_sink, headers, body, phase) == finalize_of(
                f,
                o,
                req,
                phase,
            )
            &&& asked && !request_writes(f, req) ==> dispatch_of(
                f,
                o,
                has_sink,
                headers,
                body,
                phase,
            ) == reject(o, refused(400, "async_write_read_unsupported"@))
            &&& asked && request_writes(f, req) && !has_sink ==> dispatch_of(
                f,
                o,
                has_sink,
                headers,
                body,
                phase,
            ) == reject(o, refused(503, "async_write_unavailable"@))
        }),
{
    let req = request_of(headers, None, body);
    if exists|i: int|
        0 <= i < headers.len() && text::lower((#[trigger] headers[i]).0) == text::lower(
            "x-evoxy-write-mode"@,
        ) && text::lower(headers[i].1) == text::lower("async"@) {
        let i = choose|i: int|
            0 <= i < headers.len() && text::lower((#[trigger] headers[i]).0) == text::lower(
                "x-evoxy-write-mode"@,
            ) && text::lower(headers[i].1) == text::lower("async"@);
        assert(asks_async(headers[i]));
        assert(any_asks_async(headers));
    } else if any_asks_async(headers) {
        let i = choose|i: int| 0 <= i < headers.len() && asks_async(#[trigger] headers[i]);
        assert(text::lower(headers[i].0) == text::lower("x-evoxy-write-mode"@));
    }
}

/// A response is answered with what was found out about its request: the decision as one
/// header, or the reshaped body, which takes the cluster's length with it; and with nothing
/// where there is nothing to tell.
pub proof fn responses_are_answered_with_what_was_found(shape: Seq<char>, body: Seq<u8>)
    ensures
        decision_answer(Some(shape)) == AnswerView::ResponseHeaders(
            CommonView {
                header_mutation: Some(
                    MutationView {
                        set_headers: seq![sets("x-evoxy-decision"@, shape)],
                        remove_headers: seq![],
                    },
                ),
                body_mutation: None,
                clear_route_cache: false,
            },
        ),
        shape_answer(Some(body)) == AnswerView::ResponseBody(
            CommonView {
                header_mutation: Some(
                    MutationView { set_headers: seq![], remove_headers: seq!["content-length"@] },
                ),
                body_mutation: Some(body),
                clear_route_cache: false,
            },
        ),
        shape_answer(None) == AnswerView::ResponseBody(
            CommonView { header_mutation: None, body_mutation: None, clear_route_cache: false },
        ),
        decision_answer(None) == AnswerView::ResponseHeaders(
            CommonView { header_mutation: None, body_mutation: None, clear_route_cache: false },
        ),
{
}

/// A header comes as text or as bytes: the text counts where there is any.
pub proof fn header_text_counts_before_bytes(raw: RawView)
    ensures
        read_header(raw).0 == raw.key,
        raw.value.len() > 0 ==> read_header(raw).1 == raw.value,
        raw.value.len() == 0 ==> read_header(raw).1 == lossy(raw.raw_value),
{
}

/// The broker's word decides what a queued write is told, and how it counts.
pub proof fn queued_writes_are_told_what_the_broker_said(
    o: ObserveView,
    path: Seq<char>,
    body: Seq<u8>,
)
    ensures
        acked_step(o, path, body, true).0 is Immediate,
        acked_step(o, path, body, true).0->Immediate_0.status == 202,
        acked_step(o, path, body, true).1 == one_routed(o),
        acked_step(o, path, body, false) == (
            AnswerView::Immediate(refused(503, "fanout_unavailable"@)),
            one_rejected(o),
        ),
{
}

/// What becomes of a request once it was routed. An explanation is a reply of its own. A
/// request that goes on is answered in the phase that it came in, with the mutations its
/// effects come to, and counts as routed; a reply that was sent instead counts as
/// rejected. A request that is queued hands its record to the broker and is not counted
/// yet.
pub proof fn routed_requests_are_concluded(
    o: ObserveView,
    parts: PartsView,
    outcome: OutcomeView,
    e: EffectsView,
    phase: Phase,
    method: Seq<char>,
    path: Seq<char>,
)
    ensures
        outcome_step(o, parts, WorkView::Explain, outcome) == (
            StepView::Done(
                AnswerView::Immediate(
                    ReplyView {
                        status: 200,
                        body: vstd::utf8::encode_utf8(explanation(parts, outcome)),
                    },
                ),
            ),
            o,
        ),
        ({
            let done = after_all::<ExtProcActions>(e, forward_effects(prepared(parts, outcome)));
            let (step, after) = outcome_step(
                o,
                parts,
                WorkView::Forward(e, phase, method, path),
                outcome,
            );
            let (queued, later) = outcome_step(
                o,
                parts,
                WorkView::Queue(e, method, path),
                outcome,
            );
            &&& after.emits == o.emits && after.token == o.token
            &&& done.immediate is None ==> {
                &&& finished(done, method, path) is Ok
                &&& step == StepView::Done(
                    match phase {
                        Phase::Headers => AnswerView::RequestHeaders(
                            finished(done, method, path)->Ok_0,
                        ),
                        Phase::Body => AnswerView::RequestBody(finished(done, method, path)->Ok_0),
                    },
                )
                &&& o.metrics.routed < u64::MAX ==> after.metrics.routed == o.metrics.routed + 1
                &&& after.metrics.rejected == o.metrics.rejected
                &&& queued is Produce
                &&& later == o
            }
            &&& match done.immediate {
                Some(reply) => {
                    &&& step == StepView::Done(AnswerView::Immediate(reply))
                    &&& queued == step
                    &&& later == after
                    &&& o.metrics.rejected < u64::MAX ==> after.metrics.rejected
                        == o.metrics.rejected + 1
                    &&& after.metrics.routed == o.metrics.routed
                },
                None => true,
            }
        }),
{
}

/// A response is answered with what it was resolved for: its headers with the decision,
/// its body in the client's view.
pub proof fn responses_are_answered_in_their_own_phase(
    f: FilterView,
    parts: PartsView,
    req: RequestView,
    upstream: Seq<u8>,
    answer: Resolution,
)
    ensures
        answer_step(f, parts, AnswerWorkView::Decision(req), answer) == decision_answer(
            traced_shape(f, req, answer),
        ),
        answer_step(f, parts, AnswerWorkView::Shape(upstream), answer) == shape_answer(
            shaped_read(parts, answer, upstream),
        ),
        answer_step(f, parts, AnswerWorkView::Decision(req), answer) is ResponseHeaders,
        answer_step(f, parts, AnswerWorkView::Shape(upstream), answer) is ResponseBody,
{
}

/// What the reserved paths answer: the counters, the state of the directives to who may
/// see it, and what would become of the request that is asked about.
pub proof fn reserved_paths_are_answered_with_their_own(
    f: FilterView,
    o: ObserveView,
    has_sink: bool,
    headers: Seq<HeaderView>,
    end_of_stream: bool,
)
    ensures
        ({
            let (step, after) = on_headers(f, o, has_sink, headers, end_of_stream);
            match reserved(headers) {
                ReservedView::Metrics => {
                    &&& after == o
                    &&& step == StepView::Done(
                        AnswerView::Immediate(
                            ReplyView {
                                status: 200,
                                body: vstd::utf8::encode_utf8(metrics_text(o.metrics)),
                            },
                        ),
                    )
                },
                ReservedView::Admin => {
                    &&& after.emits == emits_after_admin(o, headers)
                    &&& after.token == o.token
                    &&& after.metrics == o.metrics
                    &&& step == StepView::Done(AnswerView::Immediate(admin_reply_of(o, headers)))
                },
                ReservedView::Explain(target) => {
                    let req = request_of(headers, Some(target), seq![]);
                    &&& after == o
                    &&& match begin(f, req) {
                        BeginView::Route(parts) => step == StepView::Route(
                            parts,
                            WorkView::Explain,
                        ),
                        BeginView::Refuse(status, code) => step == StepView::Done(
                            AnswerView::Immediate(
                                ReplyView {
                                    status: 200,
                                    body: vstd::utf8::encode_utf8(
                                        explanation_of(
                                            adapted(f, req),
                                            Fate::Refused(status, code),
                                        ),
                                    ),
                                },
                            ),
                        ),
                        BeginView::Pass(_) => step == StepView::Done(
                            AnswerView::Immediate(
                                ReplyView {
                                    status: 200,
                                    body: vstd::utf8::encode_utf8(
                                        explanation_of(adapted(f, req), Fate::Passed),
                                    ),
                                },
                            ),
                        ),
                    }
                },
                ReservedView::No => true,
            }
        }),
{
}

/// A request that needs the tenancy waits for it with what was done so far, in either
/// mode; any other is concluded at once.
pub proof fn requests_wait_for_the_tenancy(
    f: FilterView,
    o: ObserveView,
    req: RequestView,
    phase: Phase,
)
    ensures
        match begin(f, req) {
            BeginView::Route(parts) => {
                &&& finalize_of(f, o, req, phase) == (
                    StepView::Route(
                        parts,
                        WorkView::Forward(no_effects(), phase, req.method, req.path_and_query),
                    ),
                    o,
                )
                &&& request_writes(f, req) ==> finalize_async_of(f, o, req, true) == (
                    StepView::Route(
                        parts,
                        WorkView::Queue(no_effects(), req.method, req.path_and_query),
                    ),
                    o,
                )
            },
            BeginView::Refuse(status, code) => {
                let reply = ReplyView {
                    status,
                    body: vstd::utf8::encode_utf8("{\"error\":\""@ + code + "\"}"@),
                };
                &&& finalize_of(f, o, req, phase) == (
                    StepView::Done(AnswerView::Immediate(reply)),
                    one_rejected(o),
                )
                &&& request_writes(f, req) ==> finalize_async_of(f, o, req, true) == (
                    StepView::Done(AnswerView::Immediate(reply)),
                    one_rejected(o),
                )
            },
            BeginView::Pass(path) => {
                &&& finalize_of(f, o, req, phase).1 == one_routed(o)
                &&& request_writes(f, req) ==> finalize_async_of(f, o, req, true) == (
                    StepView::Produce(
                        match path {
                            Some(path) => path,
                            None => req.path_and_query,
                        },
                        req.body,
                    ),
                    o,
                )
            },
        },
{
    reveal_with_fuel(after_all, 3);
    let effects = begin_effects(begin(f, req));
    if effects.len() > 0 {
        assert(effects.drop_last() =~= Seq::<Effect>::empty());
    }
}

} // verus!
