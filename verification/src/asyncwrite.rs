//! Asynchronous writes.
//!
//! A client may ask, per request, for a write to be queued instead of forwarded: it
//! gets `202` at once, and the write happens off the request path. A `202` is a
//! promise, so it is sent only once the broker has acknowledged the record; in every
//! other case the write is refused. Producing the record and waiting for the
//! acknowledgement are the caller's; what to produce and what to answer is decided
//! here.
use vstd::prelude::*;
use vstd::bytes::u64_to_le_bytes;
use vstd::slice::slice_to_vec;
use vstd::std_specs::hash::DefaultHasherAdditionalSpecFns;
use vstd::string::StringExecFns;
use std::collections::hash_map::DefaultHasher;
use std::hash::Hasher;
use crate::abi::header_views;
use crate::abi::FilterRequest;
use crate::abi::HeaderView;
use crate::abi::RequestView;
use crate::abi::ResponseView;
use crate::actions::after_all;
use crate::actions::forward_effects;
use crate::actions::lemma_after_concat;
use crate::actions::op_effects;
use crate::actions::reply_effects;
use crate::actions::Effect;
use crate::actions::EnvoyActions;
use crate::adapter::RequestParts;
use crate::decision::HeaderOpView;
use crate::decision::Resolution;
use crate::filter::begin;
use crate::filter::effective;
use crate::filter::handle_effects;
use crate::filter::request_writes;
use crate::filter::BeginView;
use crate::filter::Filter;
use crate::filter::FilterView;
use crate::filter::HandleStep;
use crate::route::error_body;
use crate::route::forwards_in_partition;
use crate::route::outcome_of;
use crate::route::prepared;
use crate::route::refusal;
use crate::route::ForwardView;
use crate::route::RouteOutcome;
use crate::text;
use crate::text::lower;

verus! {

/// The request header that opts a write into asynchronous mode. Its value must be
/// `async`; anything else is a normal synchronous request.
pub const WRITE_MODE_HEADER: &'static str = "x-evoxy-write-mode";

/// The value of [`WRITE_MODE_HEADER`] that selects asynchronous mode.
pub const ASYNC_MODE: &'static str = "async";

/// Whether one header asks for asynchronous mode.
pub open spec fn asks_async(header: HeaderView) -> bool {
    lower(header.0) == lower(WRITE_MODE_HEADER@) && lower(header.1) == lower(ASYNC_MODE@)
}

/// Whether a request's headers ask for asynchronous mode.
#[must_use]
pub fn wants_async(headers: &[(String, String)]) -> (r: bool)
    ensures
        r == exists|i: int|
            0 <= i < headers@.len() && asks_async(#[trigger] header_views(headers@)[i]),
{
    let ghost all = header_views(headers@);
    let mut i: usize = 0;
    while i < headers.len()
        invariant
            i <= headers@.len(),
            all == header_views(headers@),
            forall|k: int| 0 <= k < i ==> !asks_async(#[trigger] all[k]),
        decreases headers@.len() - i,
    {
        assert(all[i as int] == (headers@[i as int].0@, headers@[i as int].1@));
        if text::same_ignoring_case(headers[i].0.as_str(), WRITE_MODE_HEADER)
            && text::same_ignoring_case(headers[i].1.as_str(), ASYNC_MODE) {
            assert(asks_async(all[i as int]));
            return true;
        }
        i += 1;
    }
    false
}

/// A reply that the filter makes itself: a status and a shape-only body.
#[derive(Debug, Clone, PartialEq, Eq)]
pub struct ImmediateReply {
    /// The HTTP status to answer with.
    pub status: u16,
    /// The shape-only JSON body.
    pub body: Vec<u8>,
}

/// The view of an [`ImmediateReply`].
#[verifier::ext_equal]
pub struct ReplyView {
    /// The status.
    pub status: u16,
    /// The body.
    pub body: Seq<u8>,
}

impl View for ImmediateReply {
    type V = ReplyView;

    open spec fn view(&self) -> ReplyView {
        ReplyView { status: self.status, body: self.body@ }
    }
}

/// A refusal: a status and an error code.
pub open spec fn refused(status: u16, code: Seq<char>) -> ReplyView {
    ReplyView { status, body: error_body(code) }
}

/// A shape-only refusal.
#[must_use]
pub fn refuse(status: u16, code: &str) -> (r: ImmediateReply)
    ensures
        r@ == refused(status, code@),
{
    let mut body = text::concat("{\"error\":\"", code);
    body.append("\"}");
    ImmediateReply { status, body: text::bytes_of(body.as_str()) }
}

/// A lowercase hexadecimal digit.
pub open spec fn lower_hex_digit(n: int) -> char {
    if n < 10 {
        ((0x30 + n) as u8) as char
    } else {
        ((0x57 + n) as u8) as char
    }
}

/// The last `len` hexadecimal digits of a number.
pub open spec fn hex(n: nat, len: nat) -> Seq<char>
    decreases len,
{
    if len == 0 {
        seq![]
    } else {
        hex(n / 16, (len - 1) as nat).push(lower_hex_digit((n % 16) as int))
    }
}

fn push_hex(out: &mut String, n: u64, len: usize)
    ensures
        final(out)@ == old(out)@ + hex(n as nat, len as nat),
    decreases len,
{
    let ghost before = out@;
    if len > 0 {
        push_hex(out, n / 16, len - 1);
        let d: u8 = (n % 16) as u8;
        if d < 10 {
            out.push((0x30 + d) as char);
        } else {
            out.push((0x57 + d) as char);
        }
    }
    assert(out@ =~= before + hex(n as nat, len as nat));
}

/// What is hashed of an accepted write: its path and its body, each told apart from
/// what follows it.
pub open spec fn hashed(path: Seq<char>, body: Seq<u8>) -> Seq<Seq<u8>> {
    seq![
        vstd::utf8::encode_utf8(path),
        seq![0xffu8],
        vstd::bytes::spec_u64_to_le_bytes(body.len() as u64),
        body,
    ]
}

/// The correlation handle of an accepted write: the hash of its path and its body, as
/// sixteen hexadecimal digits.
pub open spec fn op_id_of(path: Seq<char>, body: Seq<u8>) -> Seq<char> {
    hex(DefaultHasher::spec_finish(hashed(path, body)) as nat, 16)
}

/// A shape-only correlation handle for an accepted write: a stable hash of the
/// physical request line and body, in hexadecimal. No tenant value is echoed.
#[must_use]
pub fn op_id(path: &str, body: &[u8]) -> (id: String)
    ensures
        id@ == op_id_of(path@, body@),
{
    let mut hasher = DefaultHasher::new();
    let separator: Vec<u8> = vec![0xff];
    let length = u64_to_le_bytes(body.len() as u64);
    hasher.write(path.as_bytes());
    hasher.write(separator.as_slice());
    hasher.write(length.as_slice());
    hasher.write(body);
    assert(hasher@ =~= hashed(path@, body@)) by {
        assert(separator@ =~= seq![0xffu8]);
    }
    let mut id = String::new();
    push_hex(&mut id, hasher.finish(), 16);
    assert(id@ =~= op_id_of(path@, body@));
    id
}

/// The body of the reply to an accepted write.
pub open spec fn accepted_text(op_id: Seq<char>) -> Seq<char> {
    "{\"status\":\"accepted\",\"op_id\":\""@ + op_id + "\"}"@
}

/// The reply to an accepted write.
pub open spec fn accepted(path: Seq<char>, body: Seq<u8>) -> ReplyView {
    ReplyView {
        status: 202,
        body: vstd::utf8::encode_utf8(accepted_text(op_id_of(path, body))),
    }
}

/// What a recorder of effects holds.
#[verifier::ext_equal]
pub struct CaptureView {
    /// The physical path.
    pub path: Seq<char>,
    /// The physical body.
    pub body: Seq<u8>,
    /// The reply that was sent instead, if any.
    pub immediate: Option<ReplyView>,
}

/// A recorder of effects for the asynchronous path: it keeps the physical path and
/// body, which is all that a record needs, or the reply that was sent.
#[derive(Debug, Clone)]
pub struct CaptureActions {
    path: String,
    body: Vec<u8>,
    immediate: Option<ImmediateReply>,
}

impl CaptureActions {
    /// A recorder that starts from the path and the body of the request as it came:
    /// what no effect changes is produced as it is.
    #[must_use]
    pub fn new(path: &str, body: &[u8]) -> (r: Self)
        ensures
            r.state() == (CaptureView { path: path@, body: body@, immediate: None }),
    {
        CaptureActions { path: path.to_owned(), body: slice_to_vec(body), immediate: None }
    }
}

impl EnvoyActions for CaptureActions {
    type State = CaptureView;

    closed spec fn state(&self) -> CaptureView {
        CaptureView {
            path: self.path@,
            body: self.body@,
            immediate: match self.immediate {
                Some(reply) => Some(reply@),
                None => None,
            },
        }
    }

    open spec fn after(state: CaptureView, effect: Effect) -> CaptureView {
        match effect {
            Effect::Path(path) => CaptureView { path, ..state },
            Effect::Body(body) => CaptureView { body, ..state },
            Effect::Reply(status, _, body) => CaptureView {
                immediate: Some(ReplyView { status, body }),
                ..state
            },
            _ => state,
        }
    }

    fn set_upstream_cluster(&mut self, _cluster: &str) {
    }

    fn set_upstream_host(&mut self, _host: &str) {
    }

    fn set_method(&mut self, _method: &str) {
    }

    fn set_path(&mut self, path: &str) {
        self.path = path.to_owned();
    }

    fn set_body(&mut self, body: &[u8]) {
        self.body = slice_to_vec(body);
    }

    fn set_header(&mut self, _name: &str, _value: &str) {
    }

    fn remove_header(&mut self, _name: &str) {
    }

    fn send_local_reply(&mut self, status: u16, _headers: &[(String, String)], body: &[u8]) {
        self.immediate = Some(ImmediateReply { status, body: slice_to_vec(body) });
    }
}

/// The record to produce for an accepted write.
#[derive(Debug, Clone)]
pub struct ProduceRequest {
    /// The physical path, which is the record's key.
    pub path: String,
    /// The physical body, which is the record's payload.
    pub body: Vec<u8>,
}

/// How far an asynchronous write has got.
#[derive(Debug, Clone)]
pub enum AsyncStep {
    /// It is answered.
    Done(ImmediateReply),
    /// The request is to be routed.
    Route(RequestParts, CaptureActions),
    /// The record is to be produced, and its acknowledgement waited for.
    Produce(ProduceRequest),
}

/// What the effects of handling an asynchronous write leave to do.
pub open spec fn captured(state: CaptureView) -> Result<(Seq<char>, Seq<u8>), ReplyView> {
    match state.immediate {
        Some(reply) => Err(reply),
        None => Ok((state.path, state.body)),
    }
}

/// The record that an asynchronous write comes to, or the reply that refuses it before
/// anything is produced. A read cannot be queued, and without a sink nothing is ever
/// forwarded instead.
pub open spec fn async_record(
    f: FilterView,
    req: RequestView,
    has_sink: bool,
    answer: Resolution,
    admitted: bool,
) -> Result<(Seq<char>, Seq<u8>), ReplyView> {
    if !request_writes(f, req) {
        Err(refused(400, "async_write_read_unsupported"@))
    } else if !has_sink {
        Err(refused(503, "async_write_unavailable"@))
    } else {
        captured(
            after_all::<CaptureActions>(
                CaptureView { path: req.path_and_query, body: req.body, immediate: None },
                handle_effects(f, req, answer, admitted),
            ),
        )
    }
}

/// The answer to a write whose record was produced.
pub open spec fn async_answer(path: Seq<char>, body: Seq<u8>, acked: bool) -> ReplyView {
    if acked {
        accepted(path, body)
    } else {
        refused(503, "fanout_unavailable"@)
    }
}

/// The reply to an asynchronous write.
pub open spec fn async_reply(
    f: FilterView,
    req: RequestView,
    has_sink: bool,
    answer: Resolution,
    admitted: bool,
    acked: bool,
) -> ReplyView {
    match async_record(f, req, has_sink, answer, admitted) {
        Err(reply) => reply,
        Ok((path, body)) => async_answer(path, body, acked),
    }
}

proof fn lemma_no_reply(state: CaptureView, effects: Seq<Effect>)
    requires
        forall|i: int| 0 <= i < effects.len() ==> !((#[trigger] effects[i]) is Reply),
    ensures
        after_all::<CaptureActions>(state, effects).immediate == state.immediate,
    decreases effects.len(),
{
    if effects.len() > 0 {
        lemma_no_reply(state, effects.drop_last());
        assert(!(effects[effects.len() - 1] is Reply));
    }
}

proof fn lemma_reply_only(state: CaptureView, reply: ResponseView)
    ensures
        after_all::<CaptureActions>(state, reply_effects(reply)).immediate == Some(
            ReplyView { status: reply.status, body: reply.body },
        ),
{
    let effects = reply_effects(reply);
    assert(effects.drop_last() =~= Seq::<Effect>::empty());
    reveal_with_fuel(after_all, 2);
}

/// No false promise: a write is answered `202` exactly where there is a record for it
/// and the broker acknowledged the record; and there is a record only for a request
/// that is a write, with a sink to produce to.
pub proof fn acceptance_is_honest(
    f: FilterView,
    req: RequestView,
    has_sink: bool,
    answer: Resolution,
    admitted: bool,
    acked: bool,
)
    ensures
        async_reply(f, req, has_sink, answer, admitted, acked).status == 202 <==> acked
            && async_record(f, req, has_sink, answer, admitted) is Ok,
        async_record(f, req, has_sink, answer, admitted) is Ok ==> request_writes(f, req) && has_sink,
{
    if request_writes(f, req) && has_sink {
        let start = CaptureView { path: req.path_and_query, body: req.body, immediate: None };
        let effects = handle_effects(f, req, answer, admitted);
        match begin(f, req) {
            BeginView::Refuse(status, code) => lemma_reply_only(start, refusal(status, code)),
            BeginView::Pass(_) => lemma_no_reply(start, effects),
            BeginView::Route(parts) => match prepared(
                parts,
                outcome_of(parts.endpoint, answer, admitted),
            ) {
                ForwardView::Immediate(reply) => lemma_reply_only(start, reply),
                ForwardView::Upstream(_) => lemma_no_reply(start, effects),
            },
        }
    }
}

/// A write that bypasses tenancy is queued as it came: its record carries its own body,
/// and its own path and query but for the tenant that path partitioning takes off.
pub proof fn untransformed_records_are_complete(
    f: FilterView,
    req: RequestView,
    answer: Resolution,
    admitted: bool,
)
    requires
        request_writes(f, req),
        begin(f, req) is Pass,
    ensures
        async_record(f, req, true, answer, admitted) == Ok::<(Seq<char>, Seq<u8>), ReplyView>(
            (effective(f, req).path_and_query, req.body),
        ),
{
    reveal_with_fuel(after_all, 2);
    let effects = handle_effects(f, req, answer, admitted);
    if effects.len() > 0 {
        assert(effects.drop_last() =~= Seq::<Effect>::empty());
    }
}

impl<R> Filter<R> {
    /// Starts an asynchronous write: refuses a request that is no write, or one for
    /// which there is no sink, and else handles it as far as the tenancy allows.
    #[must_use]
    pub fn async_write(&self, req: &FilterRequest, has_sink: bool) -> (step: AsyncStep)
        ensures
            match step {
                AsyncStep::Done(reply) => forall|answer: Resolution, admitted: bool|
                    #[trigger] async_record(self@, req@, has_sink, answer, admitted) == Err::<
                        (Seq<char>, Seq<u8>),
                        ReplyView,
                    >(reply@),
                AsyncStep::Produce(p) => forall|answer: Resolution, admitted: bool|
                    #[trigger] async_record(self@, req@, has_sink, answer, admitted) == Ok::<
                        (Seq<char>, Seq<u8>),
                        ReplyView,
                    >((p.path@, p.body@)),
                AsyncStep::Route(parts, capture) => {
                    &&& request_writes(self@, req@) && has_sink
                    &&& begin(self@, req@) == BeginView::Route(parts@)
                    &&& capture.state() == (CaptureView {
                        path: req@.path_and_query,
                        body: req@.body,
                        immediate: None,
                    })
                    &&& forall|answer: Resolution, admitted: bool|
                        #[trigger] async_record(self@, req@, has_sink, answer, admitted)
                            == captured(
                            after_all::<CaptureActions>(
                                capture.state(),
                                forward_effects(
                                    prepared(
                                        parts@,
                                        outcome_of(parts@.endpoint, answer, admitted),
                                    ),
                                ),
                            ),
                        )
                },
            },
    {
        if !self.is_write(req) {
            return AsyncStep::Done(refuse(400, "async_write_read_unsupported"));
        }
        if !has_sink {
            return AsyncStep::Done(refuse(503, "async_write_unavailable"));
        }
        let mut capture = CaptureActions::new(req.path_and_query.as_str(), req.body.as_slice());
        match self.handle(req, &mut capture) {
            HandleStep::Done(_) => settle(capture),
            HandleStep::Route(parts) => AsyncStep::Route(parts, capture),
        }
    }

    /// Continues an asynchronous write that was routed.
    #[must_use]
    pub fn async_forward(
        &self,
        parts: &RequestParts,
        capture: CaptureActions,
        outcome: &RouteOutcome,
    ) -> (step: AsyncStep)
        ensures
            match step {
                AsyncStep::Done(reply) => captured(
                    after_all::<CaptureActions>(
                        capture.state(),
                        forward_effects(prepared(parts@, outcome@)),
                    ),
                ) == Err::<(Seq<char>, Seq<u8>), ReplyView>(reply@),
                AsyncStep::Produce(p) => captured(
                    after_all::<CaptureActions>(
                        capture.state(),
                        forward_effects(prepared(parts@, outcome@)),
                    ),
                ) == Ok::<(Seq<char>, Seq<u8>), ReplyView>((p.path@, p.body@)),
                AsyncStep::Route(_, _) => false,
            },
            forwards_in_partition(parts@, outcome@),
    {
        let mut capture = capture;
        let _decision = self.forward(parts, outcome, &mut capture);
        settle(capture)
    }
}

/// What a finished recording leaves to do.
fn settle(capture: CaptureActions) -> (step: AsyncStep)
    ensures
        match step {
            AsyncStep::Done(reply) => captured(capture.state()) == Err::<
                (Seq<char>, Seq<u8>),
                ReplyView,
            >(reply@),
            AsyncStep::Produce(p) => captured(capture.state()) == Ok::<
                (Seq<char>, Seq<u8>),
                ReplyView,
            >((p.path@, p.body@)),
            AsyncStep::Route(_, _) => false,
        },
{
    match capture.immediate {
        Some(reply) => AsyncStep::Done(reply),
        None => AsyncStep::Produce(ProduceRequest { path: capture.path, body: capture.body }),
    }
}

/// The answer once the broker has acknowledged the record, or has not. Without an
/// acknowledgement the write is refused rather than promised.
#[must_use]
pub fn async_acked(produced: &ProduceRequest, acked: bool) -> (r: ImmediateReply)
    ensures
        r@ == async_answer(produced.path@, produced.body@, acked),
{
    if acked {
        let id = op_id(produced.path.as_str(), produced.body.as_slice());
        let mut body = text::concat("{\"status\":\"accepted\",\"op_id\":\"", id.as_str());
        body.append("\"}");
        ImmediateReply { status: 202, body: text::bytes_of(body.as_str()) }
    } else {
        refuse(503, "fanout_unavailable")
    }
}

/// Header mutations are no part of a record.
proof fn lemma_capture_ops(state: CaptureView, ops: Seq<HeaderOpView>)
    ensures
        after_all::<CaptureActions>(state, op_effects(ops)) == state,
    decreases ops.len(),
{
    let all = op_effects(ops);
    if ops.len() > 0 {
        assert(all.drop_last() =~= op_effects(ops.drop_last()));
        lemma_capture_ops(state, ops.drop_last());
    }
}

/// The record of a write that is routed is the request that would have been forwarded:
/// its path is the key, and its body the payload. One that would have been refused is
/// refused with the same status and body.
pub proof fn records_are_the_forwarded_request(
    f: FilterView,
    req: RequestView,
    answer: Resolution,
    admitted: bool,
)
    requires
        request_writes(f, req),
        begin(f, req) is Route,
    ensures
        match prepared(
            begin(f, req)->Route_0,
            outcome_of(begin(f, req)->Route_0.endpoint, answer, admitted),
        ) {
            ForwardView::Upstream(p) => async_record(f, req, true, answer, admitted) == Ok::<
                (Seq<char>, Seq<u8>),
                ReplyView,
            >((p.path, p.body)),
            ForwardView::Immediate(reply) => async_record(f, req, true, answer, admitted) == Err::<
                (Seq<char>, Seq<u8>),
                ReplyView,
            >(ReplyView { status: reply.status, body: reply.body }),
        },
{
    let parts = begin(f, req)->Route_0;
    let start = CaptureView { path: req.path_and_query, body: req.body, immediate: None };
    match prepared(parts, outcome_of(parts.endpoint, answer, admitted)) {
        ForwardView::Upstream(p) => {
            let ops = op_effects(p.header_ops);
            let all = forward_effects(ForwardView::Upstream(p));
            let head = all.take(all.len() - ops.len());
            assert(all =~= head + ops);
            lemma_after_concat::<CaptureActions>(start, head, ops);
            reveal_with_fuel(after_all, 6);
            assert(head.drop_last().drop_last().drop_last() =~= if p.upstream_host is Some {
                seq![Effect::Cluster(p.cluster), Effect::Host(p.upstream_host->0)]
            } else {
                seq![Effect::Cluster(p.cluster)]
            });
            assert(head.drop_last().drop_last().drop_last().drop_last() =~= if p.upstream_host
                is Some {
                seq![Effect::Cluster(p.cluster)]
            } else {
                Seq::<Effect>::empty()
            });
            assert(seq![Effect::Cluster(p.cluster)].drop_last() =~= Seq::<Effect>::empty());
            lemma_capture_ops(after_all::<CaptureActions>(start, head), p.header_ops);
        },
        ForwardView::Immediate(reply) => lemma_reply_only(start, reply),
    }
}

/// What an asynchronous write is told: `400` where it is no write, `503` where there is no
/// sink or the broker did not acknowledge, and `202` with the handle of its record where
/// the broker did.
pub proof fn asynchronous_writes_are_told_what_became_of_them(
    f: FilterView,
    req: RequestView,
    answer: Resolution,
    admitted: bool,
    path: Seq<char>,
    body: Seq<u8>,
)
    ensures
        !request_writes(f, req) ==> async_record(f, req, true, answer, admitted) == Err::<
            (Seq<char>, Seq<u8>),
            ReplyView,
        >(refused(400, "async_write_read_unsupported"@)),
        !request_writes(f, req) ==> async_record(f, req, false, answer, admitted) == Err::<
            (Seq<char>, Seq<u8>),
            ReplyView,
        >(refused(400, "async_write_read_unsupported"@)),
        request_writes(f, req) ==> async_record(f, req, false, answer, admitted) == Err::<
            (Seq<char>, Seq<u8>),
            ReplyView,
        >(refused(503, "async_write_unavailable"@)),
        async_answer(path, body, false) == refused(503, "fanout_unavailable"@),
        async_answer(path, body, true) == (ReplyView {
            status: 202,
            body: vstd::utf8::encode_utf8(
                "{\"status\":\"accepted\",\"op_id\":\""@ + op_id_of(path, body) + "\"}"@,
            ),
        }),
        refused(503, "fanout_unavailable"@) == (ReplyView {
            status: 503,
            body: vstd::utf8::encode_utf8("{\"error\":\""@ + "fanout_unavailable"@ + "\"}"@),
        }),
{
}

/// What a hexadecimal digit is worth.
pub open spec fn hex_worth(c: char) -> int {
    if '0' <= c <= '9' {
        c as int - '0' as int
    } else {
        c as int - 'a' as int + 10
    }
}

/// What a row of hexadecimal digits is worth.
pub open spec fn worth(s: Seq<char>) -> int
    decreases s.len(),
{
    if s.len() == 0 {
        0
    } else {
        worth(s.drop_last()) * 16 + hex_worth(s.last())
    }
}

/// A handle is the hash itself, in sixteen lowercase hexadecimal digits.
pub proof fn handles_are_the_hash_in_hexadecimal(path: Seq<char>, body: Seq<u8>)
    ensures
        op_id_of(path, body).len() == 16,
        worth(op_id_of(path, body)) == DefaultHasher::spec_finish(
            seq![
                vstd::utf8::encode_utf8(path),
                seq![0xffu8],
                vstd::bytes::spec_u64_to_le_bytes(body.len() as u64),
                body,
            ],
        ),
        forall|i: int|
            0 <= i < 16 ==> {
                ||| '0' <= #[trigger] op_id_of(path, body)[i] <= '9'
                ||| 'a' <= op_id_of(path, body)[i] <= 'f'
            },
{
    let n = DefaultHasher::spec_finish(hashed(path, body)) as nat;
    lemma_hex(n, 16);
    assert(n < vstd::arithmetic::power::pow(16, 16)) by {
        reveal_with_fuel(vstd::arithmetic::power::pow, 17);
    }
    vstd::arithmetic::div_mod::lemma_small_mod(n, vstd::arithmetic::power::pow(16, 16) as nat);
}

proof fn lemma_hex(n: nat, len: nat)
    ensures
        hex(n, len).len() == len,
        forall|i: int|
            0 <= i < len ==> {
                ||| '0' <= #[trigger] hex(n, len)[i] <= '9'
                ||| 'a' <= hex(n, len)[i] <= 'f'
            },
        vstd::arithmetic::power::pow(16, len) > 0,
        worth(hex(n, len)) == n % (vstd::arithmetic::power::pow(16, len) as nat),
    decreases len,
{
    vstd::arithmetic::power::lemma_pow_positive(16, len);
    if len == 0 {
        vstd::arithmetic::power::lemma_pow0(16);
    } else {
        let less = (len - 1) as nat;
        lemma_hex(n / 16, less);
        let row = hex(n, len);
        let digit = (n % 16) as int;
        assert(row.drop_last() =~= hex(n / 16, less));
        assert(hex_worth(lower_hex_digit(digit)) == digit);
        let p = vstd::arithmetic::power::pow(16, less);
        assert(vstd::arithmetic::power::pow(16, len) == 16 * p) by {
            reveal(vstd::arithmetic::power::pow);
        }
        vstd::arithmetic::div_mod::lemma_mod_breakdown(n as int, 16, p);
        assert(worth(row) == ((n / 16) % (p as nat)) * 16 + digit);
    }
}

} // verus!
