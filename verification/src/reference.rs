//! The configuration-driven reference tenancy.
//!
//! A whole multi-tenancy from the configuration alone. It covers the common patterns:
//! a cluster per tenant, an index per tenant, and one index shared by all tenants,
//! isolated by an injected field and a partition-scoped document id.
use vstd::prelude::*;
use crate::abi::RequestView;
use crate::adapter::parts_of;
use crate::config::default_config;
use crate::config::ConfigView;
use crate::config::FilterConfig;
use crate::config::Isolation;
use crate::decision::field_views;
use crate::decision::DocIdRule;
use crate::decision::FieldView;
use crate::decision::InjectedField;
use crate::decision::InjectedValue;
use crate::decision::MigrationPhase;
use crate::decision::RuleView;
use crate::decision::SpiError;
use crate::decision::ValueView;
use crate::template::framed;
use crate::template::id_frame;
use crate::template::keyless;
use crate::template::logical_of;
use crate::template::physical_ids_map_back;
use crate::template::physical_of;
use crate::template::pieces;
use crate::template::Piece;
use crate::text;
use crate::text::find;
use crate::text::find_text;
use crate::text::replaced;

verus! {

/// Where a partition's documents live.
#[derive(Debug, Clone)]
pub enum Placement {
    /// A cluster of its own; the client's index is kept.
    DedicatedCluster {
        /// The cluster id.
        cluster: String,
    },
    /// An index of its own.
    DedicatedIndex {
        /// The cluster id.
        cluster: String,
        /// The physical index.
        index: String,
    },
    /// An index shared with other partitions.
    SharedIndex {
        /// The cluster id.
        cluster: String,
        /// The physical index.
        index: String,
        /// The fields injected into every document.
        inject: Vec<InjectedField>,
    },
}

/// The view of a [`Placement`].
pub enum PlacementView {
    /// A cluster of its own.
    DedicatedCluster(Seq<char>),
    /// A cluster and an index of its own.
    DedicatedIndex(Seq<char>, Seq<char>),
    /// A cluster, a shared index, and the injected fields.
    SharedIndex(Seq<char>, Seq<char>, Seq<FieldView>),
}

impl View for Placement {
    type V = PlacementView;

    open spec fn view(&self) -> PlacementView {
        match self {
            Placement::DedicatedCluster { cluster } => PlacementView::DedicatedCluster(cluster@),
            Placement::DedicatedIndex { cluster, index } => PlacementView::DedicatedIndex(
                cluster@,
                index@,
            ),
            Placement::SharedIndex { cluster, index, inject } => PlacementView::SharedIndex(
                cluster@,
                index@,
                field_views(inject@),
            ),
        }
    }
}

impl PlacementView {
    /// The cluster of a placement.
    pub open spec fn cluster(self) -> Seq<char> {
        match self {
            PlacementView::DedicatedCluster(cluster) => cluster,
            PlacementView::DedicatedIndex(cluster, _) => cluster,
            PlacementView::SharedIndex(cluster, _, _) => cluster,
        }
    }
}

impl Placement {
    /// The cluster of the placement.
    #[must_use]
    pub fn cluster(&self) -> (r: &str)
        ensures
            r@ == self@.cluster(),
    {
        match self {
            Placement::DedicatedCluster { cluster } => cluster.as_str(),
            Placement::DedicatedIndex { cluster, .. } => cluster.as_str(),
            Placement::SharedIndex { cluster, .. } => cluster.as_str(),
        }
    }
}

/// A placement, its generation, the partition's phase, and the cluster's base URL.
#[derive(Debug, Clone)]
pub struct PlacementAt {
    /// The placement.
    pub placement: Placement,
    /// The placement's generation.
    pub epoch: u64,
    /// The migration phase.
    pub phase: MigrationPhase,
    /// The cluster's base URL.
    pub endpoint: Option<String>,
}

/// The reference tenancy.
#[derive(Debug, Clone)]
pub struct ReferenceTenancy {
    config: FilterConfig,
    migration: Option<(String, MigrationPhase)>,
}

/// The view of a [`ReferenceTenancy`].
#[verifier::ext_equal]
pub struct TenancyView {
    /// The configuration.
    pub config: ConfigView,
    /// The partition that is migrating, if any, and its phase.
    pub migration: Option<(Seq<char>, MigrationPhase)>,
}

impl View for ReferenceTenancy {
    type V = TenancyView;

    closed spec fn view(&self) -> TenancyView {
        TenancyView {
            config: self.config@,
            migration: match self.migration {
                Some((partition, phase)) => Some((partition@, phase)),
                None => None,
            },
        }
    }
}

impl TenancyView {
    /// The partition of a request: its principal or its partition header, as
    /// configured, else the default partition. A request without an identity has no
    /// principal, and one without a name names no partition.
    pub open spec fn partition(
        self,
        principal: Option<Seq<char>>,
        header: Option<Seq<char>>,
    ) -> Option<Seq<char>> {
        let named = if self.config.partition_from_principal {
            match principal {
                Some(principal) => if principal.len() > 0 {
                    Some(principal)
                } else {
                    None
                },
                None => None,
            }
        } else {
            header
        };
        match named {
            Some(partition) => Some(partition),
            None => self.config.default_partition,
        }
    }

    /// The document-id rule: only a shared index needs partition-scoped ids.
    pub open spec fn id_rule(self) -> Option<RuleView> {
        if self.config.isolation is SharedIndex {
            Some(
                RuleView { template: self.config.id_template, set_routing: self.config.routing },
            )
        } else {
            None
        }
    }

    /// The injected fields: only a shared index needs an isolation field.
    pub open spec fn fields(self) -> Seq<FieldView> {
        if self.config.isolation is SharedIndex {
            seq![FieldView { name: self.config.inject_field, value: ValueView::PartitionId }]
        } else {
            seq![]
        }
    }

    /// The phase of a partition: settled unless it is the one that migrates.
    pub open spec fn phase(self, partition: Seq<char>) -> MigrationPhase {
        match self.migration {
            Some((migrating, phase)) => if migrating == partition {
                phase
            } else {
                MigrationPhase::Settled
            },
            None => MigrationPhase::Settled,
        }
    }

    /// The cluster of a partition.
    pub open spec fn cluster(self, partition: Seq<char>) -> Seq<char> {
        if self.config.cluster_by_partition.dom().contains(partition) {
            self.config.cluster_by_partition[partition]
        } else {
            self.config.cluster
        }
    }

    /// The base URL of a partition's cluster.
    pub open spec fn endpoint(self, partition: Seq<char>) -> Seq<char> {
        if self.config.endpoint_by_partition.dom().contains(partition) {
            self.config.endpoint_by_partition[partition]
        } else {
            self.config.endpoint
        }
    }

    /// The placement of a partition.
    pub open spec fn placement(self, partition: Seq<char>) -> PlacementView {
        match self.config.isolation {
            Isolation::DedicatedCluster => PlacementView::DedicatedCluster(
                self.cluster(partition),
            ),
            Isolation::DedicatedIndex => PlacementView::DedicatedIndex(
                self.cluster(partition),
                replaced(self.config.index_template, "{partition}"@, partition),
            ),
            Isolation::SharedIndex => PlacementView::SharedIndex(
                self.cluster(partition),
                match self.config.shared_index {
                    Some(index) => index,
                    None => "shared"@,
                },
                self.fields(),
            ),
        }
    }
}

/// A partition taken from the principal cannot be chosen by a header: what the client
/// sends makes no difference to it.
pub proof fn principal_partitions_ignore_headers(
    tenancy: TenancyView,
    principal: Option<Seq<char>>,
    one: Option<Seq<char>>,
    other: Option<Seq<char>>,
)
    requires
        tenancy.config.partition_from_principal,
    ensures
        tenancy.partition(principal, one) == tenancy.partition(principal, other),
{
}

/// Nobody is a tenant by having no name: where the principal names the partition, a
/// request without an identity gets the default partition, or none.
pub proof fn anonymous_requests_have_no_partition_of_their_own(
    tenancy: TenancyView,
    req: RequestView,
    request_id: Seq<char>,
    header: Option<Seq<char>>,
)
    requires
        tenancy.config.partition_from_principal,
        !req.identity.presented,
        parts_of(req, request_id) is Some,
    ensures
        tenancy.partition(parts_of(req, request_id)->0.identity(), header)
            == tenancy.config.default_partition,
{
}

/// A request is left without a partition exactly when its source names none and there
/// is no default.
pub proof fn unresolved_only_without_source_and_default(
    tenancy: TenancyView,
    principal: Option<Seq<char>>,
    header: Option<Seq<char>>,
)
    ensures
        tenancy.partition(principal, header) is None <==> tenancy.config.default_partition is None
            && (if tenancy.config.partition_from_principal {
            principal is None || principal->0.len() == 0
        } else {
            header is None
        }),
{
}

/// Tenants of a shared index are told apart by a field that holds their partition, and
/// their documents have partition-scoped ids; tenants of their own index or cluster
/// have neither.
pub proof fn shared_tenants_are_isolated(tenancy: TenancyView, partition: Seq<char>)
    ensures
        match tenancy.placement(partition) {
            PlacementView::SharedIndex(_, _, inject) => {
                &&& inject.len() == 1
                &&& inject[0].value is PartitionId
                &&& tenancy.id_rule() is Some
            },
            _ => tenancy.id_rule() is None && tenancy.fields().len() == 0,
        },
{
}

/// The default id template is reversible: a document's physical id is its partition, a
/// colon, and the id that the client uses.
pub proof fn default_ids_are_reversible(partition: Seq<char>, id: Seq<char>)
    ensures
        id_frame(default_config().id_template, partition) == Some((partition + ":"@, ""@)),
        physical_of(default_config().id_template, partition, id) == Some(partition + ":"@ + id),
        logical_of(default_config().id_template, partition, partition + ":"@ + id) == Some(id),
{
    lemma_default_pieces();
    reveal_strlit("");
    reveal_strlit(":");
    reveal_with_fuel(framed, 6);
    reveal_with_fuel(keyless, 3);
    let template = default_config().id_template;
    let (prefix, suffix) = id_frame(template, partition)->0;
    assert(prefix =~= partition + ":"@);
    assert(suffix =~= ""@);
    assert(prefix + id + suffix =~= partition + ":"@ + id);
    physical_ids_map_back(template, partition, id);
}

proof fn lemma_default_pieces()
    ensures
        pieces(default_config().id_template) == Some(
            seq![
                Piece::Literal(""@),
                Piece::Partition,
                Piece::Literal(":"@),
                Piece::Key("id"@),
                Piece::Literal(""@),
            ],
        ),
{
    let template = default_config().id_template;
    reveal_strlit("{partition}:{body.id}");
    reveal_strlit("partition");
    reveal_strlit("body.");
    reveal_strlit("id");
    reveal_strlit(":");
    reveal_strlit("");
    let after = template.skip(1);
    assert(find(template, '{') == 0);
    text::lemma_first_at(after, '}', 9);
    assert(after.take(9) =~= "partition"@);
    let rest = after.skip(10);
    assert(template.take(0) =~= ""@);
    assert(rest =~= template.skip(11));
    text::lemma_first_at(rest, '{', 1);
    let last = rest.skip(2);
    text::lemma_first_at(last, '}', 7);
    assert(last.take(7).take(5) =~= "body."@);
    assert(last.take(7).skip(5) =~= "id"@);
    assert(last.take(7).len() != "partition"@.len());
    assert(rest.take(1) =~= ":"@);
    let end = last.skip(8);
    assert(end =~= ""@);
    assert(find(end, '{') == 0);
    reveal_with_fuel(pieces, 3);
    assert(pieces(end) == Some(seq![Piece::Literal(""@)]));
    assert(pieces(rest)->0 =~= seq![
        Piece::Literal(":"@),
        Piece::Key("id"@),
        Piece::Literal(""@),
    ]);
    assert(pieces(template)->0 =~= seq![
        Piece::Literal(""@),
        Piece::Partition,
        Piece::Literal(":"@),
        Piece::Key("id"@),
        Piece::Literal(""@),
    ]);
}

/// Documents of two partitions of a shared index never share a physical id under the
/// default template, as long as neither partition has a colon in its name.
pub proof fn default_ids_do_not_collide(
    one: Seq<char>,
    id: Seq<char>,
    other: Seq<char>,
    other_id: Seq<char>,
)
    requires
        !one.contains(':'),
        !other.contains(':'),
        physical_of(default_config().id_template, one, id) == physical_of(
            default_config().id_template,
            other,
            other_id,
        ),
    ensures
        one == other,
        id == other_id,
{
    default_ids_are_reversible(one, id);
    default_ids_are_reversible(other, other_id);
    reveal_strlit(":");
    let both = one + ":"@ + id;
    assert(both[one.len() as int] == ':');
    assert forall|i: int| 0 <= i < one.len() implies both[i] != ':' by {
        assert(both[i] == one[i]);
    }
    text::lemma_first_at(both, ':', one.len() as int);
    let same = other + ":"@ + other_id;
    assert(same[other.len() as int] == ':');
    assert forall|i: int| 0 <= i < other.len() implies same[i] != ':' by {
        assert(same[i] == other[i]);
    }
    text::lemma_first_at(same, ':', other.len() as int);
    assert(both.take(one.len() as int) =~= one);
    assert(same.take(other.len() as int) =~= other);
    assert(both.skip(one.len() as int + 1) =~= id);
    assert(same.skip(other.len() as int + 1) =~= other_id);
}

/// The default index of a tenant with an index of its own is named like its partition.
pub proof fn default_indices_are_partitions(partition: Seq<char>)
    ensures
        replaced(default_config().index_template, "{partition}"@, partition) == partition,
{
    let template = default_config().index_template;
    reveal_strlit("{partition}");
    assert(template.subrange(0, template.len() as int) =~= template);
    reveal_with_fuel(find_text, 2);
    reveal_with_fuel(replaced, 2);
    assert(template.skip(template.len() as int) =~= Seq::<char>::empty());
    assert(template.take(0) =~= Seq::<char>::empty());
    assert(Seq::<char>::empty() + partition + Seq::<char>::empty() =~= partition);
}

impl ReferenceTenancy {
    /// A dedicated-cluster tenancy from explicit parts.
    #[must_use]
    pub fn new(cluster: &str, endpoint: &str, header: &str) -> (r: Self)
        ensures
            r@ == (TenancyView {
                config: ConfigView {
                    cluster: cluster@,
                    endpoint: endpoint@,
                    partition_header: header@,
                    ..default_config()
                },
                migration: None,
            }),
    {
        let mut config = FilterConfig::default();
        config.cluster = cluster.to_owned();
        config.endpoint = endpoint.to_owned();
        config.partition_header = header.to_owned();
        assert(config@ =~= (ConfigView {
            cluster: cluster@,
            endpoint: endpoint@,
            partition_header: header@,
            ..default_config()
        }));
        ReferenceTenancy { config, migration: None }
    }

    /// Marks one partition as migrating in the given phase. In
    /// [`MigrationPhase::Cutover`] its writes are held; reads are unaffected.
    #[must_use]
    pub fn with_migration(self, partition: &str, phase: MigrationPhase) -> (r: Self)
        ensures
            r@ == (TenancyView { migration: Some((partition@, phase)), ..self@ }),
    {
        ReferenceTenancy { config: self.config, migration: Some((partition.to_owned(), phase)) }
    }

    /// The tenancy that a configuration describes.
    #[must_use]
    pub fn from_config(config: &FilterConfig) -> (r: Self)
        ensures
            r@ == (TenancyView { config: config@, migration: None }),
    {
        ReferenceTenancy { config: config.copy(), migration: None }
    }

    /// The header the partition is read from.
    #[must_use]
    pub fn partition_header(&self) -> (r: &str)
        ensures
            r@ == self@.config.partition_header,
    {
        self.config.partition_header.as_str()
    }

    /// The cluster of a partition: its own if one is configured, else the default.
    #[must_use]
    pub fn cluster_for(&self, partition: &str) -> (r: String)
        ensures
            r@ == self@.cluster(partition@),
    {
        match self.config.cluster_by_partition.get(partition) {
            Some(cluster) => cluster.to_owned(),
            None => self.config.cluster.clone(),
        }
    }

    /// The base URL of a partition: its own if one is configured, else the default.
    #[must_use]
    pub fn endpoint_for(&self, partition: &str) -> (r: String)
        ensures
            r@ == self@.endpoint(partition@),
    {
        match self.config.endpoint_by_partition.get(partition) {
            Some(endpoint) => endpoint.to_owned(),
            None => self.config.endpoint.clone(),
        }
    }

    /// The per-tenant physical index of the dedicated-index mode.
    #[must_use]
    pub fn index_for(&self, partition: &str) -> (r: String)
        ensures
            r@ == replaced(self@.config.index_template, "{partition}"@, partition@),
    {
        proof {
            reveal_strlit("{partition}");
        }
        text::replace(self.config.index_template.as_str(), "{partition}", partition)
    }

    /// The migration phase of a partition.
    #[must_use]
    pub fn phase_of(&self, partition: &str) -> (r: MigrationPhase)
        ensures
            r == self@.phase(partition@),
    {
        match &self.migration {
            Some((migrating, phase)) => if text::same(migrating.as_str(), partition) {
                *phase
            } else {
                MigrationPhase::Settled
            },
            None => MigrationPhase::Settled,
        }
    }

    /// The partition of a request with the given principal, if it has an identity, and
    /// the given value of the partition header.
    ///
    /// # Errors
    /// [`SpiError::PartitionUnresolved`] where neither names one and there is no
    /// default.
    pub fn resolve_partition(&self, principal: Option<&str>, header: Option<&str>) -> (r: Result<
        String,
        SpiError,
    >)
        ensures
            match r {
                Ok(partition) => self@.partition(
                    text::viewed(principal),
                    text::viewed(header),
                ) == Some(partition@),
                Err(err) => {
                    &&& self@.partition(text::viewed(principal), text::viewed(header)) is None
                    &&& err == SpiError::PartitionUnresolved
                },
            },
    {
        if self.config.partition_from_principal {
            if let Some(principal) = principal {
                if !principal.is_empty() {
                    return Ok(principal.to_owned());
                }
            }
        } else if let Some(partition) = header {
            return Ok(partition.to_owned());
        }
        match &self.config.default_partition {
            Some(partition) => Ok(partition.clone()),
            None => Err(SpiError::PartitionUnresolved),
        }
    }

    /// The document-id rule, where the tenancy constructs ids.
    #[must_use]
    pub fn doc_id_rule(&self) -> (r: Option<DocIdRule>)
        ensures
            match r {
                Some(rule) => self@.id_rule() == Some(rule@),
                None => self@.id_rule() is None,
            },
    {
        match self.config.isolation {
            Isolation::SharedIndex => Some(
                DocIdRule {
                    template: self.config.id_template.clone(),
                    set_routing: self.config.routing,
                },
            ),
            _ => None,
        }
    }

    /// The fields the tenancy injects.
    #[must_use]
    pub fn injected_fields(&self) -> (r: Vec<InjectedField>)
        ensures
            field_views(r@) == self@.fields(),
    {
        let mut fields: Vec<InjectedField> = Vec::new();
        if let Isolation::SharedIndex = self.config.isolation {
            fields.push(
                InjectedField {
                    name: self.config.inject_field.clone(),
                    value: InjectedValue::PartitionId,
                },
            );
        }
        assert(field_views(fields@) =~= self@.fields());
        fields
    }

    /// The write gate: writes are held during the cutover of their partition, and at
    /// no other time. The placement's generation plays no part, because a request is
    /// resolved and forwarded in one pass.
    #[must_use]
    pub fn admit_write(&self, partition: &str, _epoch: u64) -> (r: bool)
        ensures
            r == !(self@.phase(partition@) is Cutover),
    {
        match self.phase_of(partition) {
            MigrationPhase::Cutover => false,
            _ => true,
        }
    }

    /// The placement of a partition.
    #[must_use]
    pub fn placement_for(&self, partition: &str) -> (r: PlacementAt)
        ensures
            r.placement@ == self@.placement(partition@),
            r.epoch == 1,
            r.phase == self@.phase(partition@),
            text::optional(r.endpoint) == Some(self@.endpoint(partition@)),
    {
        let cluster = self.cluster_for(partition);
        let placement = match self.config.isolation {
            Isolation::DedicatedCluster => Placement::DedicatedCluster { cluster },
            Isolation::DedicatedIndex => Placement::DedicatedIndex {
                cluster,
                index: self.index_for(partition),
            },
            Isolation::SharedIndex => Placement::SharedIndex {
                cluster,
                index: match &self.config.shared_index {
                    Some(index) => index.clone(),
                    None => "shared".to_owned(),
                },
                inject: self.injected_fields(),
            },
        };
        PlacementAt {
            placement,
            epoch: 1,
            phase: self.phase_of(partition),
            endpoint: Some(self.endpoint_for(partition)),
        }
    }
}

/// Where the partition of a request comes from: its principal where that is the source,
/// else its header; and the default where the source names none.
pub proof fn partitions_come_from_their_source(
    tenancy: TenancyView,
    principal: Option<Seq<char>>,
    header: Option<Seq<char>>,
)
    ensures
        tenancy.config.partition_from_principal && principal is Some && principal->0.len() > 0
            ==> tenancy.partition(principal, header) == principal,
        tenancy.config.partition_from_principal && (principal is None || principal->0.len() == 0)
            ==> tenancy.partition(principal, header) == tenancy.config.default_partition,
        !tenancy.config.partition_from_principal && header is Some ==> tenancy.partition(
            principal,
            header,
        ) == header,
        !tenancy.config.partition_from_principal && header is None ==> tenancy.partition(
            principal,
            header,
        ) == tenancy.config.default_partition,
{
}

/// Where the documents of a partition live. Its cluster and its endpoint are its own where
/// the configuration gives it some, and else the common ones. A dedicated cluster keeps
/// the client's index; a dedicated index is the template with the partition in it; and a
/// shared index is the configured one, with the partition under the configured field and
/// in ids of the configured template.
pub proof fn partitions_live_where_they_are_placed(tenancy: TenancyView, partition: Seq<char>)
    ensures
        ({
            let cluster = if tenancy.config.cluster_by_partition.dom().contains(partition) {
                tenancy.config.cluster_by_partition[partition]
            } else {
                tenancy.config.cluster
            };
            &&& tenancy.endpoint(partition)
                == if tenancy.config.endpoint_by_partition.dom().contains(partition) {
                tenancy.config.endpoint_by_partition[partition]
            } else {
                tenancy.config.endpoint
            }
            &&& match tenancy.config.isolation {
                Isolation::DedicatedCluster => {
                    &&& tenancy.placement(partition) == PlacementView::DedicatedCluster(cluster)
                    &&& tenancy.id_rule() is None
                    &&& tenancy.fields().len() == 0
                },
                Isolation::DedicatedIndex => {
                    &&& tenancy.placement(partition) == PlacementView::DedicatedIndex(
                        cluster,
                        replaced(tenancy.config.index_template, "{partition}"@, partition),
                    )
                    &&& tenancy.id_rule() is None
                    &&& tenancy.fields().len() == 0
                },
                Isolation::SharedIndex => {
                    &&& tenancy.placement(partition) == PlacementView::SharedIndex(
                        cluster,
                        match tenancy.config.shared_index {
                            Some(index) => index,
                            None => "shared"@,
                        },
                        seq![
                            FieldView {
                                name: tenancy.config.inject_field,
                                value: ValueView::PartitionId,
                            },
                        ],
                    )
                    &&& tenancy.id_rule() == Some(
                        RuleView {
                            template: tenancy.config.id_template,
                            set_routing: tenancy.config.routing,
                        },
                    )
                    &&& tenancy.fields() == seq![
                        FieldView {
                            name: tenancy.config.inject_field,
                            value: ValueView::PartitionId,
                        },
                    ]
                },
            }
        }),
{
}

/// Only the partition that migrates is in a phase of its own.
pub proof fn only_the_migrating_partition_has_a_phase(
    tenancy: TenancyView,
    migrating: Seq<char>,
    phase: MigrationPhase,
    partition: Seq<char>,
)
    ensures
        (TenancyView { migration: None, ..tenancy }).phase(partition) == MigrationPhase::Settled,
        (TenancyView { migration: Some((migrating, phase)), ..tenancy }).phase(migrating) == phase,
        partition != migrating ==> (TenancyView {
            migration: Some((migrating, phase)),
            ..tenancy
        }).phase(partition) == MigrationPhase::Settled,
{
}

} // verus!
