//! The dynamic-module backend, apart from the proxy's handle.
//!
//! The filter's effects are recorded while it runs; afterwards they are committed to
//! the handle in one go. What is committed, and in which order, is decided here.
use vstd::prelude::*;
use vstd::slice::slice_to_vec;
use crate::abi::header_views;
use crate::abi::HeaderView;
use crate::actions::Effect;
use crate::actions::EnvoyActions;
use crate::asyncwrite::ImmediateReply;
use crate::asyncwrite::ReplyView;
use crate::text;
use crate::text::string_views;

verus! {

/// One call of the proxy's handle.
#[derive(Debug, Clone)]
pub enum SdkCall {
    /// Send this response.
    SendResponse(ImmediateReply),
    /// Set a request header.
    SetHeader(String, String),
    /// Remove a request header.
    RemoveHeader(String),
    /// Replace the buffered body.
    ReplaceBody(Vec<u8>),
}

/// The view of an [`SdkCall`].
pub enum CallView {
    /// Send this response.
    SendResponse(ReplyView),
    /// Set a request header.
    SetHeader(Seq<char>, Seq<char>),
    /// Remove a request header.
    RemoveHeader(Seq<char>),
    /// Replace the buffered body.
    ReplaceBody(Seq<u8>),
}

impl View for SdkCall {
    type V = CallView;

    open spec fn view(&self) -> CallView {
        match self {
            SdkCall::SendResponse(reply) => CallView::SendResponse(reply@),
            SdkCall::SetHeader(name, value) => CallView::SetHeader(name@, value@),
            SdkCall::RemoveHeader(name) => CallView::RemoveHeader(name@),
            SdkCall::ReplaceBody(body) => CallView::ReplaceBody(body@),
        }
    }
}

/// The views of a list of calls.
pub open spec fn call_views(calls: Seq<SdkCall>) -> Seq<CallView> {
    Seq::new(calls.len(), |i: int| calls[i]@)
}

/// What a recorder holds.
#[verifier::ext_equal]
pub struct SdkView {
    /// The body of the request as it came.
    pub original_body: Seq<u8>,
    /// The method that was set.
    pub method: Option<Seq<char>>,
    /// The path that was set.
    pub path: Option<Seq<char>>,
    /// The body that was set.
    pub body: Option<Seq<u8>>,
    /// Headers that were set.
    pub set_headers: Seq<HeaderView>,
    /// Headers that were removed.
    pub remove_headers: Seq<Seq<char>>,
    /// The reply that was sent instead.
    pub immediate: Option<ReplyView>,
}

/// A recorder of effects. The cluster and the authority are not among them: the module
/// is routed statically.
#[derive(Debug, Clone)]
pub struct SdkActions {
    original_body: Vec<u8>,
    method: Option<String>,
    path: Option<String>,
    body: Option<Vec<u8>>,
    set_headers: Vec<(String, String)>,
    remove_headers: Vec<String>,
    immediate: Option<ImmediateReply>,
}

impl EnvoyActions for SdkActions {
    type State = SdkView;

    closed spec fn state(&self) -> SdkView {
        SdkView {
            original_body: self.original_body@,
            method: text::optional(self.method),
            path: text::optional(self.path),
            body: match self.body {
                Some(body) => Some(body@),
                None => None,
            },
            set_headers: header_views(self.set_headers@),
            remove_headers: string_views(self.remove_headers@),
            immediate: match self.immediate {
                Some(reply) => Some(reply@),
                None => None,
            },
        }
    }

    open spec fn after(state: SdkView, effect: Effect) -> SdkView {
        match effect {
            Effect::Cluster(_) => state,
            Effect::Host(_) => state,
            Effect::Method(method) => SdkView { method: Some(method), ..state },
            Effect::Path(path) => SdkView { path: Some(path), ..state },
            Effect::Body(body) => SdkView { body: Some(body), ..state },
            Effect::SetHeader(name, value) => SdkView {
                set_headers: state.set_headers.push((name, value)),
                ..state
            },
            Effect::RemoveHeader(name) => SdkView {
                remove_headers: state.remove_headers.push(name),
                ..state
            },
            Effect::Reply(status, _, body) => SdkView {
                immediate: Some(ReplyView { status, body }),
                ..state
            },
        }
    }

    fn set_upstream_cluster(&mut self, _cluster: &str) {
    }

    fn set_upstream_host(&mut self, _host: &str) {
    }

    fn set_method(&mut self, method: &str) {
        self.method = Some(method.to_owned());
    }

    fn set_path(&mut self, path: &str) {
        self.path = Some(path.to_owned());
    }

    fn set_body(&mut self, body: &[u8]) {
        self.body = Some(slice_to_vec(body));
    }

    fn set_header(&mut self, name: &str, value: &str) {
        let ghost before = self.state();
        self.set_headers.push((name.to_owned(), value.to_owned()));
        assert(self.state().set_headers =~= before.set_headers.push((name@, value@)));
    }

    fn remove_header(&mut self, name: &str) {
        let ghost before = self.state();
        self.remove_headers.push(name.to_owned());
        assert(self.state().remove_headers =~= before.remove_headers.push(name@));
    }

    fn send_local_reply(&mut self, status: u16, _headers: &[(String, String)], body: &[u8]) {
        self.immediate = Some(ImmediateReply { status, body: slice_to_vec(body) });
    }
}

/// The call that sets a pseudo-header, where there is a value for it.
pub open spec fn line_call(name: Seq<char>, value: Option<Seq<char>>) -> Seq<CallView> {
    match value {
        Some(value) => seq![CallView::SetHeader(name, value)],
        None => seq![],
    }
}

/// The calls that set headers.
pub open spec fn set_calls(headers: Seq<HeaderView>) -> Seq<CallView> {
    Seq::new(headers.len(), |i: int| CallView::SetHeader(headers[i].0, headers[i].1))
}

/// The calls that remove headers.
pub open spec fn remove_calls(names: Seq<Seq<char>>) -> Seq<CallView> {
    Seq::new(names.len(), |i: int| CallView::RemoveHeader(names[i]))
}

/// The call that replaces the body, where it changes.
pub open spec fn body_call(body: Option<Seq<u8>>, original: Seq<u8>) -> Seq<CallView> {
    match body {
        Some(body) => if body == original {
            seq![]
        } else {
            seq![CallView::ReplaceBody(body)]
        },
        None => seq![],
    }
}

/// The calls that commit some effects: a reply wins; otherwise the request line, the
/// headers, and the body where it changes.
pub open spec fn committed(s: SdkView) -> Seq<CallView> {
    match s.immediate {
        Some(reply) => seq![CallView::SendResponse(reply)],
        None => line_call(":method"@, s.method) + line_call(":path"@, s.path) + set_calls(
            s.set_headers,
        ) + remove_calls(s.remove_headers) + body_call(s.body, s.original_body),
    }
}

/// A reply is all that is committed: a refused request is never mutated as well.
pub proof fn replies_are_committed_alone(s: SdkView)
    requires
        s.immediate is Some,
    ensures
        committed(s).len() == 1,
        committed(s)[0] is SendResponse,
{
}

fn push_line(calls: &mut Vec<SdkCall>, name: &str, value: &Option<String>)
    ensures
        call_views(final(calls)@) == call_views(old(calls)@) + line_call(
            name@,
            text::optional(*value),
        ),
{
    let ghost before = call_views(calls@);
    if let Some(value) = value {
        calls.push(SdkCall::SetHeader(name.to_owned(), value.clone()));
    }
    assert(call_views(calls@) =~= before + line_call(name@, text::optional(*value)));
}

fn same_bytes(a: &[u8], b: &[u8]) -> (r: bool)
    ensures
        r == (a@ == b@),
{
    if a.len() != b.len() {
        return false;
    }
    let mut i: usize = 0;
    while i < a.len()
        invariant
            i <= a@.len() == b@.len(),
            forall|k: int| 0 <= k < i ==> a@[k] == b@[k],
        decreases a@.len() - i,
    {
        if a[i] != b[i] {
            return false;
        }
        i += 1;
    }
    assert(a@ =~= b@);
    true
}

impl SdkActions {
    /// A recorder for a request with the given body.
    #[must_use]
    pub fn new(original_body: Vec<u8>) -> (r: Self)
        ensures
            r.state() == (SdkView {
                original_body: original_body@,
                method: None,
                path: None,
                body: None,
                set_headers: seq![],
                remove_headers: seq![],
                immediate: None,
            }),
    {
        let r = SdkActions {
            original_body,
            method: None,
            path: None,
            body: None,
            set_headers: Vec::new(),
            remove_headers: Vec::new(),
            immediate: None,
        };
        assert(r.state().set_headers =~= Seq::<HeaderView>::empty());
        assert(r.state().remove_headers =~= Seq::<Seq<char>>::empty());
        r
    }

    /// The calls that commit the effects to the proxy's handle, in order.
    #[must_use]
    pub fn apply(self) -> (calls: Vec<SdkCall>)
        ensures
            call_views(calls@) == committed(self.state()),
    {
        let ghost s = self.state();
        let mut calls: Vec<SdkCall> = Vec::new();
        if let Some(reply) = self.immediate {
            calls.push(SdkCall::SendResponse(reply));
            assert(call_views(calls@) =~= committed(s));
            return calls;
        }
        push_line(&mut calls, ":method", &self.method);
        push_line(&mut calls, ":path", &self.path);
        let ghost lines = call_views(calls@);
        let mut i: usize = 0;
        while i < self.set_headers.len()
            invariant
                i <= self.set_headers@.len(),
                call_views(calls@) =~= lines + set_calls(header_views(self.set_headers@)).take(
                    i as int,
                ),
            decreases self.set_headers@.len() - i,
        {
            let ghost before = calls@;
            let ghost all = set_calls(header_views(self.set_headers@));
            calls.push(
                SdkCall::SetHeader(self.set_headers[i].0.clone(), self.set_headers[i].1.clone()),
            );
            assert(call_views(calls@) =~= call_views(before).push(all[i as int]));
            assert(all.take(i + 1) =~= all.take(i as int).push(all[i as int]));
            i += 1;
        }
        let ghost sets = call_views(calls@);
        let mut j: usize = 0;
        while j < self.remove_headers.len()
            invariant
                j <= self.remove_headers@.len(),
                call_views(calls@) =~= sets + remove_calls(string_views(self.remove_headers@)).take(
                    j as int,
                ),
            decreases self.remove_headers@.len() - j,
        {
            let ghost before = calls@;
            let ghost all = remove_calls(string_views(self.remove_headers@));
            calls.push(SdkCall::RemoveHeader(self.remove_headers[j].clone()));
            assert(call_views(calls@) =~= call_views(before).push(all[j as int]));
            assert(all.take(j + 1) =~= all.take(j as int).push(all[j as int]));
            j += 1;
        }
        let ghost headers = call_views(calls@);
        if let Some(body) = self.body {
            if !same_bytes(body.as_slice(), self.original_body.as_slice()) {
                calls.push(SdkCall::ReplaceBody(body));
            }
        }
        assert(call_views(calls@) =~= headers + body_call(s.body, s.original_body));
        assert(call_views(calls@) =~= committed(s));
        calls
    }
}

/// Whether the module serves a filter of this name: its own, or an unnamed one. A name
/// it does not know is refused, and the configuration with it.
#[must_use]
pub fn serves_filter(name: &str) -> (r: bool)
    ensures
        r == (name@ == "evoxy"@ || name@.len() == 0),
{
    name.is_empty() || text::same(name, "evoxy")
}

/// What a recording commits, where nothing was replied: the method and the path where
/// they were set, then every header that was set and every one that was removed, in
/// order, and the body where it was set to another than came.
pub proof fn recordings_are_committed_in_order(s: SdkView)
    requires
        s.immediate is None,
    ensures
        ({
            let all = committed(s);
            let line: int = (if s.method is Some {
                1int
            } else {
                0
            }) + (if s.path is Some {
                1int
            } else {
                0
            });
            let sets = s.set_headers.len() as int;
            let removes = s.remove_headers.len() as int;
            let changed = s.body is Some && s.body->0 != s.original_body;
            &&& all.len() == line + sets + removes + if changed {
                1int
            } else {
                0
            }
            &&& s.method is Some ==> all[0] == CallView::SetHeader(":method"@, s.method->0)
            &&& s.path is Some ==> all[line - 1] == CallView::SetHeader(":path"@, s.path->0)
            &&& forall|i: int|
                0 <= i < sets ==> all[line + i] == CallView::SetHeader(
                    (#[trigger] s.set_headers[i]).0,
                    s.set_headers[i].1,
                )
            &&& forall|i: int|
                0 <= i < removes ==> all[line + sets + i] == CallView::RemoveHeader(
                    #[trigger] s.remove_headers[i],
                )
            &&& changed ==> all.last() == CallView::ReplaceBody(s.body->0)
        }),
{
    let a = line_call(":method"@, s.method);
    let b = a + line_call(":path"@, s.path);
    let c = b + set_calls(s.set_headers);
    let d = c + remove_calls(s.remove_headers);
    assert(committed(s) == d + body_call(s.body, s.original_body));
}

/// A reply is committed as it was sent.
pub proof fn replies_are_committed_as_sent(s: SdkView, reply: ReplyView)
    requires
        s.immediate == Some(reply),
    ensures
        committed(s) == seq![CallView::SendResponse(reply)],
{
}

/// A recording keeps what came before: headers are set and removed behind those that were,
/// the last method, path, body and reply count, and no effect touches what another one
/// recorded. The cluster and the host are the proxy's own affair.
pub proof fn effects_are_recorded_beside_each_other(
    s: SdkView,
    one: Seq<char>,
    other: Seq<char>,
    body: Seq<u8>,
    status: u16,
    headers: Seq<HeaderView>,
)
    ensures
        SdkActions::after(s, Effect::Cluster(one)) == s,
        SdkActions::after(s, Effect::Host(one)) == s,
        ({
            let r = SdkActions::after(s, Effect::Method(one));
            r.method == Some(one) && r == (SdkView { method: r.method, ..s })
        }),
        ({
            let r = SdkActions::after(s, Effect::Path(one));
            r.path == Some(one) && r == (SdkView { path: r.path, ..s })
        }),
        ({
            let r = SdkActions::after(s, Effect::Body(body));
            r.body == Some(body) && r == (SdkView { body: r.body, ..s })
        }),
        ({
            let r = SdkActions::after(s, Effect::SetHeader(one, other));
            &&& s.set_headers.is_prefix_of(r.set_headers)
            &&& r.set_headers.len() == s.set_headers.len() + 1
            &&& r.set_headers.last() == (one, other)
            &&& r == (SdkView { set_headers: r.set_headers, ..s })
        }),
        ({
            let r = SdkActions::after(s, Effect::RemoveHeader(one));
            &&& s.remove_headers.is_prefix_of(r.remove_headers)
            &&& r.remove_headers.len() == s.remove_headers.len() + 1
            &&& r.remove_headers.last() == one
            &&& r == (SdkView { remove_headers: r.remove_headers, ..s })
        }),
        ({
            let r = SdkActions::after(s, Effect::Reply(status, headers, body));
            &&& r.immediate == Some(ReplyView { status, body })
            &&& r == (SdkView { immediate: r.immediate, ..s })
        }),
{
}

} // verus!
