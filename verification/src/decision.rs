//! What the tenancy decides about a request: where it goes and how its body is
//! rewritten on the way.
//!
//! Resolution itself (which partition, which placement) is the tenancy's own
//! business and may wait on a backend. Its result is plain data, and everything
//! this crate does with a request afterwards is a function of that data.
use vstd::prelude::*;
use crate::classify::EndpointKind;
use crate::json::json_of;
use crate::json::Json;
use crate::text;

verus! {

/// How a document id is constructed from the document.
#[derive(Debug, Clone)]
pub struct DocIdRule {
    /// The id template: literal text, `{partition}` and `{body.<path>}`.
    pub template: String,
    /// Whether the partition is also sent as the routing value.
    pub set_routing: bool,
}

/// The view of a [`DocIdRule`].
#[verifier::ext_equal]
pub struct RuleView {
    /// The template.
    pub template: Seq<char>,
    /// Whether the partition is the routing value.
    pub set_routing: bool,
}

impl View for DocIdRule {
    type V = RuleView;

    open spec fn view(&self) -> RuleView {
        RuleView { template: self.template@, set_routing: self.set_routing }
    }
}

/// Where the value of an injected field comes from.
#[derive(Debug, Clone)]
pub enum InjectedValue {
    /// The partition id.
    PartitionId,
    /// A fixed value.
    Constant(serde_json::Value),
    /// An attribute of the principal, not resolved yet.
    FromPrincipal(String),
    /// A request header, not resolved yet.
    FromHeader(String),
}

/// The view of an [`InjectedValue`].
pub enum ValueView {
    /// The partition id.
    PartitionId,
    /// A fixed value.
    Constant(Json),
    /// An attribute of the principal.
    FromPrincipal(Seq<char>),
    /// A request header.
    FromHeader(Seq<char>),
}

impl View for InjectedValue {
    type V = ValueView;

    open spec fn view(&self) -> ValueView {
        match self {
            InjectedValue::PartitionId => ValueView::PartitionId,
            InjectedValue::Constant(v) => ValueView::Constant(json_of(*v)),
            InjectedValue::FromPrincipal(attr) => ValueView::FromPrincipal(attr@),
            InjectedValue::FromHeader(name) => ValueView::FromHeader(name@),
        }
    }
}

/// A field the placement adds to every document.
#[derive(Debug, Clone)]
pub struct InjectedField {
    /// The field's name.
    pub name: String,
    /// The field's value.
    pub value: InjectedValue,
}

/// The view of an [`InjectedField`].
pub struct FieldView {
    /// The name.
    pub name: Seq<char>,
    /// The value.
    pub value: ValueView,
}

impl View for InjectedField {
    type V = FieldView;

    open spec fn view(&self) -> FieldView {
        FieldView { name: self.name@, value: self.value@ }
    }
}

/// The views of a list of injected fields.
pub open spec fn field_views(fields: Seq<InjectedField>) -> Seq<FieldView> {
    Seq::new(fields.len(), |i: int| fields[i]@)
}

/// How the body of a request is rewritten.
#[derive(Debug, Clone)]
pub enum BodyTransform {
    /// The body is forwarded as it is.
    Unchanged,
    /// Fields are injected.
    Inject(Vec<InjectedField>),
    /// A document id is constructed.
    ConstructId(DocIdRule),
    /// Fields are injected and a document id is constructed.
    Both {
        /// The fields.
        inject: Vec<InjectedField>,
        /// The id rule.
        id: DocIdRule,
    },
}

/// The view of a [`BodyTransform`].
pub enum TransformView {
    /// The body is forwarded as it is.
    Unchanged,
    /// Fields are injected.
    Inject(Seq<FieldView>),
    /// A document id is constructed.
    ConstructId(RuleView),
    /// Both.
    Both {
        /// The fields.
        inject: Seq<FieldView>,
        /// The id rule.
        id: RuleView,
    },
}

impl View for BodyTransform {
    type V = TransformView;

    open spec fn view(&self) -> TransformView {
        match self {
            BodyTransform::Unchanged => TransformView::Unchanged,
            BodyTransform::Inject(fields) => TransformView::Inject(field_views(fields@)),
            BodyTransform::ConstructId(rule) => TransformView::ConstructId(rule@),
            BodyTransform::Both { inject, id } => TransformView::Both {
                inject: field_views(inject@),
                id: id@,
            },
        }
    }
}

impl TransformView {
    /// The id rule, where the placement constructs ids.
    pub open spec fn id_rule(self) -> Option<RuleView> {
        match self {
            TransformView::ConstructId(rule) => Some(rule),
            TransformView::Both { id, .. } => Some(id),
            _ => None,
        }
    }

    /// The injected fields, none where the placement injects none.
    pub open spec fn fields(self) -> Seq<FieldView> {
        match self {
            TransformView::Inject(fields) => fields,
            TransformView::Both { inject, .. } => inject,
            _ => seq![],
        }
    }

    /// Whether the placement injects.
    pub open spec fn injects(self) -> bool {
        self is Inject || self is Both
    }

    /// The routing value: the partition, where the id rule asks for it.
    pub open spec fn routing(self, partition: Seq<char>) -> Option<Seq<char>> {
        match self.id_rule() {
            Some(rule) => if rule.set_routing {
                Some(partition)
            } else {
                None
            },
            None => None,
        }
    }
}

impl BodyTransform {
    /// The id rule, where the placement constructs ids.
    #[must_use]
    pub fn id_rule(&self) -> (r: Option<&DocIdRule>)
        ensures
            match r {
                Some(rule) => self@.id_rule() == Some(rule@),
                None => self@.id_rule() is None,
            },
    {
        match self {
            BodyTransform::ConstructId(rule) => Some(rule),
            BodyTransform::Both { id, .. } => Some(id),
            _ => None,
        }
    }

    /// The injected fields, where the placement injects.
    #[must_use]
    pub fn fields(&self) -> (r: Option<&Vec<InjectedField>>)
        ensures
            match r {
                Some(fields) => self@.injects() && self@.fields() == field_views(fields@),
                None => !self@.injects(),
            },
    {
        match self {
            BodyTransform::Inject(fields) => Some(fields),
            BodyTransform::Both { inject, .. } => Some(inject),
            _ => None,
        }
    }

    /// The routing value: the partition, where the id rule asks for it.
    #[must_use]
    pub fn routing_for(&self, partition: &str) -> (r: Option<String>)
        ensures
            text::optional(r) == self@.routing(partition@),
    {
        match self.id_rule() {
            Some(rule) => if rule.set_routing {
                Some(partition.to_owned())
            } else {
                None
            },
            None => None,
        }
    }
}

/// One mutation of a request's headers.
#[derive(Debug, Clone)]
pub enum HeaderOp {
    /// Add a header.
    Add {
        /// The name.
        name: String,
        /// The value.
        value: String,
    },
    /// Remove a header.
    Remove {
        /// The name.
        name: String,
    },
    /// Replace a header.
    Replace {
        /// The name.
        name: String,
        /// The value.
        value: String,
    },
}

/// The view of a [`HeaderOp`].
pub enum HeaderOpView {
    /// Add a header.
    Add(Seq<char>, Seq<char>),
    /// Remove a header.
    Remove(Seq<char>),
    /// Replace a header.
    Replace(Seq<char>, Seq<char>),
}

impl View for HeaderOp {
    type V = HeaderOpView;

    open spec fn view(&self) -> HeaderOpView {
        match self {
            HeaderOp::Add { name, value } => HeaderOpView::Add(name@, value@),
            HeaderOp::Remove { name } => HeaderOpView::Remove(name@),
            HeaderOp::Replace { name, value } => HeaderOpView::Replace(name@, value@),
        }
    }
}

/// The views of a list of header mutations.
pub open spec fn op_views(ops: Seq<HeaderOp>) -> Seq<HeaderOpView> {
    Seq::new(ops.len(), |i: int| ops[i]@)
}

/// A copy of a list of header mutations.
pub fn copy_ops(ops: &Vec<HeaderOp>) -> (out: Vec<HeaderOp>)
    ensures
        op_views(out@) == op_views(ops@),
{
    let mut out: Vec<HeaderOp> = Vec::new();
    let mut i: usize = 0;
    while i < ops.len()
        invariant
            i <= ops@.len(),
            out@.len() == i,
            forall|k: int| 0 <= k < i ==> (#[trigger] out@[k])@ == ops@[k]@,
        decreases ops@.len() - i,
    {
        let op = match &ops[i] {
            HeaderOp::Add { name, value } => HeaderOp::Add {
                name: name.clone(),
                value: value.clone(),
            },
            HeaderOp::Remove { name } => HeaderOp::Remove { name: name.clone() },
            HeaderOp::Replace { name, value } => HeaderOp::Replace {
                name: name.clone(),
                value: value.clone(),
            },
        };
        out.push(op);
        i += 1;
    }
    assert(op_views(out@) =~= op_views(ops@));
    out
}

/// How far a partition's move to another placement has got.
#[derive(Debug, Clone, Copy, PartialEq, Eq, Structural)]
pub enum MigrationPhase {
    /// No move is under way.
    Settled,
    /// The old placement is being drained; writes still go to it.
    Draining,
    /// Writes are held until the new placement takes over.
    Cutover,
}

impl MigrationPhase {
    /// The phase's stable name.
    pub open spec fn name(self) -> Seq<char> {
        match self {
            MigrationPhase::Settled => "settled"@,
            MigrationPhase::Draining => "draining"@,
            MigrationPhase::Cutover => "cutover"@,
        }
    }

    /// The phase's stable name.
    #[must_use]
    pub fn as_str(self) -> (r: &'static str)
        ensures
            r@ == self.name(),
    {
        match self {
            MigrationPhase::Settled => "settled",
            MigrationPhase::Draining => "draining",
            MigrationPhase::Cutover => "cutover",
        }
    }
}

/// The upstream a request goes to.
#[derive(Debug, Clone)]
pub struct Target {
    /// The cluster id.
    pub cluster: String,
    /// The physical index.
    pub index: String,
    /// The cluster's base URL, where the tenancy names one.
    pub endpoint: Option<String>,
}

/// The view of a [`Target`].
#[verifier::ext_equal]
pub struct TargetView {
    /// The cluster id.
    pub cluster: Seq<char>,
    /// The physical index.
    pub index: Seq<char>,
    /// The base URL.
    pub endpoint: Option<Seq<char>>,
}

impl View for Target {
    type V = TargetView;

    open spec fn view(&self) -> TargetView {
        TargetView {
            cluster: self.cluster@,
            index: self.index@,
            endpoint: text::optional(self.endpoint),
        }
    }
}

/// The routing decision for one request.
#[derive(Debug, Clone)]
pub struct RouteDecision {
    /// Where the request goes.
    pub target: Target,
    /// Header mutations to apply before forwarding.
    pub header_ops: Vec<HeaderOp>,
    /// How the body is rewritten.
    pub body_transform: BodyTransform,
    /// The placement's generation.
    pub epoch: u64,
}

/// A request's partition, its routing decision, and the partition's phase.
#[derive(Debug, Clone)]
pub struct Resolved {
    /// The partition id.
    pub partition: String,
    /// The decision.
    pub decision: RouteDecision,
    /// The migration phase.
    pub migration: MigrationPhase,
}

/// The view of a [`Resolved`].
#[verifier::ext_equal]
pub struct ResolvedView {
    /// The partition id.
    pub partition: Seq<char>,
    /// Where the request goes.
    pub target: TargetView,
    /// Header mutations.
    pub header_ops: Seq<HeaderOpView>,
    /// How the body is rewritten.
    pub transform: TransformView,
    /// The placement's generation.
    pub epoch: u64,
    /// The migration phase.
    pub migration: MigrationPhase,
}

impl View for Resolved {
    type V = ResolvedView;

    open spec fn view(&self) -> ResolvedView {
        ResolvedView {
            partition: self.partition@,
            target: self.decision.target@,
            header_ops: op_views(self.decision.header_ops@),
            transform: self.decision.body_transform@,
            epoch: self.decision.epoch,
            migration: self.migration,
        }
    }
}

/// Why a request could not be resolved.
#[derive(Debug, Clone, Copy, PartialEq, Eq, Structural)]
pub enum SpiError {
    /// No source named a partition.
    PartitionUnresolved,
    /// A principal attribute that an injected field needs is missing.
    PrincipalAttrMissing,
    /// A header that an injected field needs is missing.
    HeaderMissing,
    /// The endpoint has no tenancy semantics.
    UnsupportedEndpoint(EndpointKind),
    /// The partition has no placement.
    PlacementMissing,
    /// The placement lookup is unavailable.
    PlacementBackend {
        /// Whether trying again may help.
        retryable: bool,
    },
    /// A shared index without a partition-scoped id rule.
    IdRuleMissingPartition,
    /// Any other failure of the tenancy.
    Other,
}

/// What the tenancy answered, as a view.
pub type Resolution = Result<ResolvedView, SpiError>;

/// The view of the tenancy's answer.
pub open spec fn resolution(r: Result<Resolved, SpiError>) -> Resolution {
    match r {
        Ok(resolved) => Ok(resolved@),
        Err(err) => Err(err),
    }
}

/// A transform gives back what it is made of: its fields are those it injects, its rule
/// is that of the ids it constructs, and the partition is the routing value exactly where
/// that rule asks for it.
pub proof fn transforms_hold_their_parts(
    inject: Seq<FieldView>,
    id: RuleView,
    partition: Seq<char>,
)
    ensures
        TransformView::Unchanged.id_rule() is None,
        TransformView::Unchanged.fields().len() == 0,
        !TransformView::Unchanged.injects(),
        TransformView::Unchanged.routing(partition) is None,
        TransformView::Inject(inject).id_rule() is None,
        TransformView::Inject(inject).fields() == inject,
        TransformView::Inject(inject).injects(),
        TransformView::Inject(inject).routing(partition) is None,
        TransformView::ConstructId(id).id_rule() == Some(id),
        TransformView::ConstructId(id).fields().len() == 0,
        !TransformView::ConstructId(id).injects(),
        TransformView::ConstructId(id).routing(partition) == if id.set_routing {
            Some(partition)
        } else {
            None
        },
        (TransformView::Both { inject, id }).id_rule() == Some(id),
        (TransformView::Both { inject, id }).fields() == inject,
        (TransformView::Both { inject, id }).injects(),
        (TransformView::Both { inject, id }).routing(partition) == if id.set_routing {
            Some(partition)
        } else {
            None
        },
{
}

/// The phases go by these names.
pub proof fn phases_have_stable_names()
    ensures
        MigrationPhase::Settled.name() == "settled"@,
        MigrationPhase::Draining.name() == "draining"@,
        MigrationPhase::Cutover.name() == "cutover"@,
{
}

} // verus!
