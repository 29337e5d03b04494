//! The effects a filter has on a request, apart from how they are carried out.
//!
//! The filter issues effects through [`EnvoyActions`]; what carries them out is an
//! implementation of that trait. An implementation says in [`EnvoyActions::after`]
//! what each effect does to its state, and whatever the filter does is then a list of
//! effects applied to that state.
use vstd::prelude::*;
use crate::abi::header_views;
use crate::abi::HeaderView;
use crate::abi::ResponseView;
use crate::decision::op_views;
use crate::decision::HeaderOp;
use crate::decision::HeaderOpView;
use crate::route::Forward;
use crate::route::ForwardView;
use crate::route::PreparedView;

verus! {

/// One effect on a request.
pub enum Effect {
    /// Route to this cluster.
    Cluster(Seq<char>),
    /// Dial this authority.
    Host(Seq<char>),
    /// Replace the method.
    Method(Seq<char>),
    /// Replace the path.
    Path(Seq<char>),
    /// Replace the body.
    Body(Seq<u8>),
    /// Add or replace a header.
    SetHeader(Seq<char>, Seq<char>),
    /// Remove a header.
    RemoveHeader(Seq<char>),
    /// Stop, and reply to the client.
    Reply(u16, Seq<HeaderView>, Seq<u8>),
}

/// What a filter needs of the proxy.
pub trait EnvoyActions: Send {
    /// What the effects change, as far as it can be told.
    type State;

    /// The state.
    spec fn state(&self) -> Self::State;

    /// The state after one more effect.
    spec fn after(state: Self::State, effect: Effect) -> Self::State;

    /// Route the request to this upstream cluster.
    fn set_upstream_cluster(&mut self, cluster: &str)
        ensures
            final(self).state() == Self::after(old(self).state(), Effect::Cluster(cluster@)),
    ;

    /// Set the upstream authority that the placement's endpoint names.
    fn set_upstream_host(&mut self, host: &str)
        ensures
            final(self).state() == Self::after(old(self).state(), Effect::Host(host@)),
    ;

    /// Replace the request method.
    fn set_method(&mut self, method: &str)
        ensures
            final(self).state() == Self::after(old(self).state(), Effect::Method(method@)),
    ;

    /// Replace the request path.
    fn set_path(&mut self, path: &str)
        ensures
            final(self).state() == Self::after(old(self).state(), Effect::Path(path@)),
    ;

    /// Replace the request body.
    fn set_body(&mut self, body: &[u8])
        ensures
            final(self).state() == Self::after(old(self).state(), Effect::Body(body@)),
    ;

    /// Add or replace a request header.
    fn set_header(&mut self, name: &str, value: &str)
        ensures
            final(self).state() == Self::after(
                old(self).state(),
                Effect::SetHeader(name@, value@),
            ),
    ;

    /// Remove a request header.
    fn remove_header(&mut self, name: &str)
        ensures
            final(self).state() == Self::after(old(self).state(), Effect::RemoveHeader(name@)),
    ;

    /// Stop the filter chain and reply to the client directly.
    fn send_local_reply(&mut self, status: u16, headers: &[(String, String)], body: &[u8])
        ensures
            final(self).state() == Self::after(
                old(self).state(),
                Effect::Reply(status, header_views(headers@), body@),
            ),
    ;
}

/// The state after a list of effects, in order.
pub open spec fn after_all<A: EnvoyActions>(state: A::State, effects: Seq<Effect>) -> A::State
    decreases effects.len(),
{
    if effects.len() == 0 {
        state
    } else {
        A::after(after_all::<A>(state, effects.drop_last()), effects.last())
    }
}

/// One more effect at the end of a list.
pub proof fn lemma_after_push<A: EnvoyActions>(
    state: A::State,
    effects: Seq<Effect>,
    effect: Effect,
)
    ensures
        after_all::<A>(state, effects.push(effect)) == A::after(
            after_all::<A>(state, effects),
            effect,
        ),
{
    assert(effects.push(effect).drop_last() =~= effects);
}

/// One list of effects after another.
pub proof fn lemma_after_concat<A: EnvoyActions>(
    state: A::State,
    first: Seq<Effect>,
    second: Seq<Effect>,
)
    ensures
        after_all::<A>(state, first + second) == after_all::<A>(
            after_all::<A>(state, first),
            second,
        ),
    decreases second.len(),
{
    if second.len() == 0 {
        assert(first + second =~= first);
    } else {
        lemma_after_concat::<A>(state, first, second.drop_last());
        assert((first + second).drop_last() =~= first + second.drop_last());
    }
}

/// What the caller should tell the proxy after a request was handled.
#[derive(Debug, Clone, Copy, PartialEq, Eq, Structural)]
pub enum FilterDecision {
    /// Continue the filter chain, so that the request is forwarded.
    ContinueUpstream,
    /// A local reply was sent; stop the filter chain.
    StoppedWithLocalReply,
}

/// The effect of one header mutation.
pub open spec fn op_effect(op: HeaderOpView) -> Effect {
    match op {
        HeaderOpView::Add(name, value) => Effect::SetHeader(name, value),
        HeaderOpView::Replace(name, value) => Effect::SetHeader(name, value),
        HeaderOpView::Remove(name) => Effect::RemoveHeader(name),
    }
}

/// The effects of a list of header mutations: one each, in order.
pub open spec fn op_effects(ops: Seq<HeaderOpView>) -> Seq<Effect> {
    Seq::new(ops.len(), |i: int| op_effect(ops[i]))
}

/// The effects of forwarding a request.
pub open spec fn upstream_effects(f: PreparedView) -> Seq<Effect> {
    let target = match f.upstream_host {
        Some(host) => seq![Effect::Cluster(f.cluster), Effect::Host(host)],
        None => seq![Effect::Cluster(f.cluster)],
    };
    target + seq![Effect::Method(f.method), Effect::Path(f.path), Effect::Body(f.body)]
        + op_effects(f.header_ops)
}

/// The effect of replying to a request.
pub open spec fn reply_effects(reply: ResponseView) -> Seq<Effect> {
    seq![Effect::Reply(reply.status, reply.headers, reply.body)]
}

/// The effects of a forward.
pub open spec fn forward_effects(f: ForwardView) -> Seq<Effect> {
    match f {
        ForwardView::Upstream(f) => upstream_effects(f),
        ForwardView::Immediate(reply) => reply_effects(reply),
    }
}

/// What a forward tells the proxy.
pub open spec fn forward_decision(f: ForwardView) -> FilterDecision {
    match f {
        ForwardView::Upstream(_) => FilterDecision::ContinueUpstream,
        ForwardView::Immediate(_) => FilterDecision::StoppedWithLocalReply,
    }
}

/// Issues the effects of a routed [`Forward`]: mutate the request and let it go
/// upstream, or send the fail-closed reply.
pub fn apply_forward<A: EnvoyActions>(forward: &Forward, actions: &mut A) -> (d: FilterDecision)
    ensures
        d == forward_decision(forward@),
        final(actions).state() == after_all::<A>(old(actions).state(), forward_effects(forward@)),
{
    let ghost start = actions.state();
    let ghost mut done: Seq<Effect> = seq![];
    match forward {
        Forward::Upstream(f) => {
            actions.set_upstream_cluster(f.cluster.as_str());
            proof {
                lemma_after_push::<A>(start, done, Effect::Cluster(f.cluster@));
                done = done.push(Effect::Cluster(f.cluster@));
            }
            if let Some(host) = &f.upstream_host {
                actions.set_upstream_host(host.as_str());
                proof {
                    lemma_after_push::<A>(start, done, Effect::Host(host@));
                    done = done.push(Effect::Host(host@));
                }
            }
            actions.set_method(f.method);
            proof {
                lemma_after_push::<A>(start, done, Effect::Method(f.method@));
                done = done.push(Effect::Method(f.method@));
            }
            actions.set_path(f.path.as_str());
            proof {
                lemma_after_push::<A>(start, done, Effect::Path(f.path@));
                done = done.push(Effect::Path(f.path@));
            }
            actions.set_body(f.body.as_slice());
            proof {
                lemma_after_push::<A>(start, done, Effect::Body(f.body@));
                done = done.push(Effect::Body(f.body@));
            }
            apply_header_ops(&f.header_ops, actions);
            proof {
                lemma_after_concat::<A>(start, done, op_effects(f@.header_ops));
                assert(done + op_effects(f@.header_ops) =~= upstream_effects(f@));
            }
            FilterDecision::ContinueUpstream
        },
        Forward::Immediate(reply) => {
            actions.send_local_reply(reply.status, reply.headers.as_slice(), reply.body.as_slice());
            proof {
                let effect = Effect::Reply(reply.status, reply@.headers, reply@.body);
                lemma_after_push::<A>(start, done, effect);
                assert(done.push(effect) =~= reply_effects(reply@));
            }
            FilterDecision::StoppedWithLocalReply
        },
    }
}

/// Applies the decision's header mutations to the forwarded request.
pub fn apply_header_ops<A: EnvoyActions>(ops: &Vec<HeaderOp>, actions: &mut A)
    ensures
        final(actions).state() == after_all::<A>(
            old(actions).state(),
            op_effects(op_views(ops@)),
        ),
{
    let ghost start = actions.state();
    let ghost all = op_effects(op_views(ops@));
    let mut i: usize = 0;
    assert(all.take(0) =~= Seq::<Effect>::empty());
    while i < ops.len()
        invariant
            i <= ops@.len(),
            all == op_effects(op_views(ops@)),
            actions.state() == after_all::<A>(start, all.take(i as int)),
        decreases ops@.len() - i,
    {
        proof {
            assert(all.take(i + 1) =~= all.take(i as int).push(op_effect(ops@[i as int]@)));
            lemma_after_push::<A>(start, all.take(i as int), op_effect(ops@[i as int]@));
        }
        match &ops[i] {
            HeaderOp::Add { name, value } => actions.set_header(name.as_str(), value.as_str()),
            HeaderOp::Replace { name, value } => actions.set_header(
                name.as_str(),
                value.as_str(),
            ),
            HeaderOp::Remove { name } => actions.remove_header(name.as_str()),
        }
        i += 1;
    }
    assert(all.take(i as int) =~= all);
}

/// Forwarding a request sets all of it: first the cluster, then the authority where the
/// placement names one, then the method, the path and the body, and then each header
/// mutation, in order. A refusal is a reply and nothing else.
pub proof fn forwards_set_the_whole_request(f: PreparedView, reply: ResponseView)
    ensures
        ({
            let all = forward_effects(ForwardView::Upstream(f));
            let at: int = if f.upstream_host is Some {
                2
            } else {
                1
            };
            &&& all.len() == at + 3 + f.header_ops.len()
            &&& all[0] == Effect::Cluster(f.cluster)
            &&& f.upstream_host is Some ==> all[1] == Effect::Host(f.upstream_host->0)
            &&& all[at] == Effect::Method(f.method)
            &&& all[at + 1] == Effect::Path(f.path)
            &&& all[at + 2] == Effect::Body(f.body)
            &&& forall|i: int|
                0 <= i < f.header_ops.len() ==> all[at + 3 + i] == match #[trigger] f.header_ops[i] {
                    HeaderOpView::Add(name, value) => Effect::SetHeader(name, value),
                    HeaderOpView::Replace(name, value) => Effect::SetHeader(name, value),
                    HeaderOpView::Remove(name) => Effect::RemoveHeader(name),
                }
        }),
        forward_effects(ForwardView::Immediate(reply)) == seq![
            Effect::Reply(reply.status, reply.headers, reply.body),
        ],
        forward_decision(ForwardView::Upstream(f)) == FilterDecision::ContinueUpstream,
        forward_decision(ForwardView::Immediate(reply)) == FilterDecision::StoppedWithLocalReply,
{
}

} // verus!
