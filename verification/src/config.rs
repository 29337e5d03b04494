//! The configuration of the reference tenancy.
//!
//! It is read leniently from the proxy's configuration blob: a missing or misshapen
//! key falls back to its default, so a bare configuration still gives a runnable
//! filter.
use vstd::prelude::*;
use crate::json;
use crate::json::fields_of;
use crate::json::json_of;
use crate::json::jsons;
use crate::json::parsed;
use crate::json::Json;
use crate::lookup::PartitionMap;
use crate::text;
use crate::text::lower;
use crate::text::string_views;

verus! {

/// The default partition-scoped document-id template of the shared-index mode.
pub const DEFAULT_ID_TEMPLATE: &'static str = "{partition}:{body.id}";

/// The default per-tenant index of the dedicated-index mode.
pub const DEFAULT_INDEX_TEMPLATE: &'static str = "{partition}";

/// How the reference tenancy isolates tenants.
#[derive(Debug, Clone, Copy, PartialEq, Eq, Structural)]
pub enum Isolation {
    /// Keep the client's index; isolate by cluster.
    DedicatedCluster,
    /// One cluster, a per-tenant physical index.
    DedicatedIndex,
    /// One physical index shared by all tenants, isolated by an injected field.
    SharedIndex,
}

/// The configuration handed to the filter at start.
#[derive(Debug, Clone)]
pub struct FilterConfig {
    /// How to isolate tenants.
    pub isolation: Isolation,
    /// The upstream cluster a partition routes to by default.
    pub cluster: String,
    /// Clusters of particular partitions.
    pub cluster_by_partition: PartitionMap,
    /// The default cluster's base URL.
    pub endpoint: String,
    /// Base URLs of particular partitions.
    pub endpoint_by_partition: PartitionMap,
    /// The request header the partition is read from.
    pub partition_header: String,
    /// Take the partition from the validated principal instead of the header.
    pub partition_from_principal: bool,
    /// Take the partition from the first path segment.
    pub partition_from_path: bool,
    /// The partition of a request that names none, instead of failing closed.
    pub default_partition: Option<String>,
    /// The per-tenant index of the dedicated-index mode; `{partition}` is replaced.
    pub index_template: String,
    /// The index that all tenants share in the shared-index mode.
    pub shared_index: Option<String>,
    /// The injected isolation field of the shared-index mode.
    pub inject_field: String,
    /// The document-id template of the shared-index mode.
    pub id_template: String,
    /// Whether the shared-index mode sends the partition as the routing value.
    pub routing: bool,
    /// Logical indices that bypass tenancy.
    pub passthrough_indices: Vec<String>,
}

/// The view of a [`FilterConfig`].
#[verifier::ext_equal]
pub struct ConfigView {
    /// How to isolate tenants.
    pub isolation: Isolation,
    /// The default cluster.
    pub cluster: Seq<char>,
    /// Clusters of particular partitions.
    pub cluster_by_partition: Map<Seq<char>, Seq<char>>,
    /// The default base URL.
    pub endpoint: Seq<char>,
    /// Base URLs of particular partitions.
    pub endpoint_by_partition: Map<Seq<char>, Seq<char>>,
    /// The partition header.
    pub partition_header: Seq<char>,
    /// Whether the partition is the principal.
    pub partition_from_principal: bool,
    /// Whether the partition is the first path segment.
    pub partition_from_path: bool,
    /// The default partition.
    pub default_partition: Option<Seq<char>>,
    /// The index template.
    pub index_template: Seq<char>,
    /// The shared index.
    pub shared_index: Option<Seq<char>>,
    /// The isolation field.
    pub inject_field: Seq<char>,
    /// The document-id template.
    pub id_template: Seq<char>,
    /// Whether the partition is the routing value.
    pub routing: bool,
    /// Indices that bypass tenancy.
    pub passthrough_indices: Seq<Seq<char>>,
}

impl View for FilterConfig {
    type V = ConfigView;

    open spec fn view(&self) -> ConfigView {
        ConfigView {
            isolation: self.isolation,
            cluster: self.cluster@,
            cluster_by_partition: self.cluster_by_partition@,
            endpoint: self.endpoint@,
            endpoint_by_partition: self.endpoint_by_partition@,
            partition_header: self.partition_header@,
            partition_from_principal: self.partition_from_principal,
            partition_from_path: self.partition_from_path,
            default_partition: text::optional(self.default_partition),
            index_template: self.index_template@,
            shared_index: text::optional(self.shared_index),
            inject_field: self.inject_field@,
            id_template: self.id_template@,
            routing: self.routing,
            passthrough_indices: string_views(self.passthrough_indices@),
        }
    }
}

/// The default configuration.
pub open spec fn default_config() -> ConfigView {
    ConfigView {
        isolation: Isolation::DedicatedCluster,
        cluster: "opensearch"@,
        cluster_by_partition: Map::empty(),
        endpoint: "http://localhost:9200"@,
        endpoint_by_partition: Map::empty(),
        partition_header: "x-tenant"@,
        partition_from_principal: false,
        partition_from_path: false,
        default_partition: None,
        index_template: DEFAULT_INDEX_TEMPLATE@,
        shared_index: None,
        inject_field: "_tenant"@,
        id_template: DEFAULT_ID_TEMPLATE@,
        routing: true,
        passthrough_indices: seq![],
    }
}

impl Default for FilterConfig {
    fn default() -> (r: Self)
        ensures
            r@ == default_config(),
    {
        let r = FilterConfig {
            isolation: Isolation::DedicatedCluster,
            cluster: "opensearch".to_owned(),
            cluster_by_partition: PartitionMap::new(),
            endpoint: "http://localhost:9200".to_owned(),
            endpoint_by_partition: PartitionMap::new(),
            partition_header: "x-tenant".to_owned(),
            partition_from_principal: false,
            partition_from_path: false,
            default_partition: None,
            index_template: DEFAULT_INDEX_TEMPLATE.to_owned(),
            shared_index: None,
            inject_field: "_tenant".to_owned(),
            id_template: DEFAULT_ID_TEMPLATE.to_owned(),
            routing: true,
            passthrough_indices: Vec::new(),
        };
        assert(r@ =~= default_config());
        r
    }
}

/// A string field, or its default.
pub open spec fn text_or(doc: Json, key: Seq<char>, fallback: Seq<char>) -> Seq<char> {
    match doc.text_at(key) {
        Some(s) => s,
        None => fallback,
    }
}

/// A boolean field, or its default.
pub open spec fn bool_or(doc: Json, key: Seq<char>, fallback: bool) -> bool {
    match doc.bool_at(key) {
        Some(b) => b,
        None => fallback,
    }
}

/// The string fields of an object; nothing of another value.
pub open spec fn text_map(doc: Option<Json>) -> Map<Seq<char>, Seq<char>> {
    match doc {
        Some(Json::Fields(m)) => Map::new(
            |k: Seq<char>| m.dom().contains(k) && m[k] is Text,
            |k: Seq<char>| m[k]->Text_0,
        ),
        _ => Map::empty(),
    }
}

/// The strings of a list, in order, without its other elements.
pub open spec fn texts(items: Seq<Json>) -> Seq<Seq<char>>
    decreases items.len(),
{
    if items.len() == 0 {
        seq![]
    } else {
        match items.last() {
            Json::Text(s) => texts(items.drop_last()).push(s),
            _ => texts(items.drop_last()),
        }
    }
}

/// The strings of a list field; nothing of another value.
pub open spec fn text_list(doc: Option<Json>) -> Seq<Seq<char>> {
    match doc {
        Some(Json::List(items)) => texts(items),
        _ => seq![],
    }
}

/// The isolation that a configuration names, whatever the case, or that it implies.
pub open spec fn isolation_of(named: Option<Seq<char>>, has_shared_index: bool) -> Isolation {
    let inferred = if has_shared_index {
        Isolation::SharedIndex
    } else {
        Isolation::DedicatedCluster
    };
    match named {
        Some(s) => if lower(s) == lower("shared_index"@) {
            Isolation::SharedIndex
        } else if lower(s) == lower("dedicated_index"@) {
            Isolation::DedicatedIndex
        } else if lower(s) == lower("dedicated_cluster"@) {
            Isolation::DedicatedCluster
        } else {
            inferred
        },
        None => inferred,
    }
}

/// Whether the partition is the principal: as `partition_source` says where it is
/// given, else as the older flag says.
pub open spec fn from_principal(doc: Json) -> bool {
    match doc.text_at("partition_source"@) {
        Some(source) => lower(source) == lower("principal"@),
        None => bool_or(doc, "partition_from_principal"@, false),
    }
}

/// Whether the partition is the first path segment.
pub open spec fn from_path(doc: Json) -> bool {
    match doc.text_at("partition_source"@) {
        Some(source) => lower(source) == lower("path"@),
        None => false,
    }
}

/// The configuration that a document describes.
pub open spec fn config_of(doc: Json) -> ConfigView {
    let fallback = default_config();
    ConfigView {
        isolation: isolation_of(doc.text_at("isolation"@), doc.text_at("shared_index"@) is Some),
        cluster: text_or(doc, "cluster"@, fallback.cluster),
        cluster_by_partition: text_map(doc.get("cluster_by_partition"@)),
        endpoint: text_or(doc, "endpoint"@, fallback.endpoint),
        endpoint_by_partition: text_map(doc.get("endpoint_by_partition"@)),
        partition_header: text_or(doc, "partition_header"@, fallback.partition_header),
        partition_from_principal: from_principal(doc),
        partition_from_path: from_path(doc),
        default_partition: doc.text_at("default_partition"@),
        index_template: text_or(doc, "index_template"@, fallback.index_template),
        shared_index: doc.text_at("shared_index"@),
        inject_field: text_or(doc, "inject_field"@, fallback.inject_field),
        id_template: text_or(doc, "id_template"@, fallback.id_template),
        routing: bool_or(doc, "routing"@, fallback.routing),
        passthrough_indices: text_list(doc.get("passthrough_indices"@)),
    }
}

/// A document that is no object describes the default configuration.
pub proof fn misshapen_configurations_are_the_default(doc: Json)
    requires
        !(doc is Fields),
    ensures
        config_of(doc) == default_config(),
{
    assert(config_of(doc) =~= default_config());
}

/// The document that a configuration blob holds; a blob that is no JSON holds
/// nothing.
pub open spec fn document(raw: Seq<char>) -> Json {
    match parsed(vstd::utf8::encode_utf8(raw)) {
        Some(doc) => doc,
        None => Json::Null,
    }
}

pub(crate) fn opt_string(doc: &serde_json::Value, key: &str) -> (r: Option<String>)
    ensures
        text::optional(r) == json_of(*doc).text_at(key@),
{
    match json::get(doc, key) {
        Some(v) => match v.as_str() {
            Some(s) => Some(s.to_owned()),
            None => None,
        },
        None => None,
    }
}

fn string_or(doc: &serde_json::Value, key: &str, fallback: &str) -> (r: String)
    ensures
        r@ == text_or(json_of(*doc), key@, fallback@),
{
    match opt_string(doc, key) {
        Some(s) => s,
        None => fallback.to_owned(),
    }
}

pub(crate) fn flag_or(doc: &serde_json::Value, key: &str, fallback: bool) -> (r: bool)
    ensures
        r == bool_or(json_of(*doc), key@, fallback),
{
    match json::get(doc, key) {
        Some(v) => match v.as_bool() {
            Some(b) => b,
            None => fallback,
        },
        None => fallback,
    }
}

fn string_map(doc: &serde_json::Value, key: &str) -> (r: PartitionMap)
    ensures
        r@ == text_map(json_of(*doc).get(key@)),
{
    let mut out = PartitionMap::new();
    let field = match json::get(doc, key) {
        Some(field) => field,
        None => return out,
    };
    let m = match field.as_object() {
        Some(m) => m,
        None => return out,
    };
    let entries = json::entries(m);
    let ghost all = fields_of(*m);
    let mut i: usize = 0;
    while i < entries.len()
        invariant
            i <= entries@.len(),
            all == fields_of(*m),
            forall|k: int|
                0 <= k < entries@.len() ==> all.dom().contains((#[trigger] entries@[k]).0@)
                    && all[entries@[k].0@] == json_of(entries@[k].1),
            forall|k: int, j: int|
                0 <= k < j < entries@.len() ==> (#[trigger] entries@[k]).0@ != (
                #[trigger] entries@[j]).0@,
            forall|key: Seq<char>| #[trigger]
                out@.dom().contains(key) ==> all.dom().contains(key) && all[key] == Json::Text(
                    out@[key],
                ),
            forall|k: int|
                0 <= k < i && json_of((#[trigger] entries@[k]).1) is Text ==> out@.dom().contains(
                    entries@[k].0@,
                ),
        decreases entries@.len() - i,
    {
        if let Some(s) = entries[i].1.as_str() {
            out.insert(entries[i].0.as_str(), s);
        }
        i += 1;
    }
    proof {
        let want = text_map(Some(Json::Fields(all)));
        assert forall|key: Seq<char>| out@.dom().contains(key) <==> want.dom().contains(key) by {
            if want.dom().contains(key) {
                assert(all.dom().contains(key));
                let k = choose|k: int| 0 <= k < entries@.len() && entries@[k].0@ == key;
                assert(json_of(entries@[k].1) is Text);
            }
        }
        assert(out@ =~= want);
    }
    out
}

fn string_list(doc: &serde_json::Value, key: &str) -> (r: Vec<String>)
    ensures
        string_views(r@) == text_list(json_of(*doc).get(key@)),
{
    let mut out: Vec<String> = Vec::new();
    assert(string_views(out@) =~= Seq::<Seq<char>>::empty());
    let field = match json::get(doc, key) {
        Some(field) => field,
        None => return out,
    };
    let list = match field.as_array() {
        Some(list) => list,
        None => return out,
    };
    let ghost all = jsons(list@);
    let mut i: usize = 0;
    assert(all.take(0) =~= Seq::<Json>::empty());
    while i < list.len()
        invariant
            i <= list@.len(),
            all == jsons(list@),
            string_views(out@) == texts(all.take(i as int)),
        decreases list@.len() - i,
    {
        assert(all.take(i + 1).drop_last() =~= all.take(i as int));
        assert(all.take(i + 1).last() == json_of(list@[i as int]));
        if let Some(s) = list[i].as_str() {
            let ghost seen = out@;
            out.push(s.to_owned());
            assert(string_views(out@) =~= string_views(seen).push(s@));
        }
        i += 1;
    }
    assert(all.take(i as int) =~= all);
    out
}

/// Maps the `isolation` value to an [`Isolation`], inferring it where the key is
/// absent or not recognized.
fn parse_isolation(named: Option<String>, has_shared_index: bool) -> (r: Isolation)
    ensures
        r == isolation_of(text::optional(named), has_shared_index),
{
    if let Some(s) = &named {
        if text::same_ignoring_case(s.as_str(), "shared_index") {
            return Isolation::SharedIndex;
        }
        if text::same_ignoring_case(s.as_str(), "dedicated_index") {
            return Isolation::DedicatedIndex;
        }
        if text::same_ignoring_case(s.as_str(), "dedicated_cluster") {
            return Isolation::DedicatedCluster;
        }
    }
    if has_shared_index {
        Isolation::SharedIndex
    } else {
        Isolation::DedicatedCluster
    }
}

impl FilterConfig {
    /// Reads a configuration from a parsed document, falling back to the default of
    /// any missing key.
    #[must_use]
    pub fn from_value(doc: &serde_json::Value) -> (r: Self)
        ensures
            r@ == config_of(json_of(*doc)),
    {
        let shared_index = opt_string(doc, "shared_index");
        let source = opt_string(doc, "partition_source");
        let partition_from_principal = match &source {
            Some(source) => text::same_ignoring_case(source.as_str(), "principal"),
            None => flag_or(doc, "partition_from_principal", false),
        };
        let partition_from_path = match &source {
            Some(source) => text::same_ignoring_case(source.as_str(), "path"),
            None => false,
        };
        FilterConfig {
            isolation: parse_isolation(opt_string(doc, "isolation"), shared_index.is_some()),
            cluster: string_or(doc, "cluster", "opensearch"),
            cluster_by_partition: string_map(doc, "cluster_by_partition"),
            endpoint: string_or(doc, "endpoint", "http://localhost:9200"),
            endpoint_by_partition: string_map(doc, "endpoint_by_partition"),
            partition_header: string_or(doc, "partition_header", "x-tenant"),
            partition_from_principal,
            partition_from_path,
            default_partition: opt_string(doc, "default_partition"),
            index_template: string_or(doc, "index_template", DEFAULT_INDEX_TEMPLATE),
            shared_index,
            inject_field: string_or(doc, "inject_field", "_tenant"),
            id_template: string_or(doc, "id_template", DEFAULT_ID_TEMPLATE),
            routing: flag_or(doc, "routing", true),
            passthrough_indices: string_list(doc, "passthrough_indices"),
        }
    }

    /// Parses a JSON configuration blob, falling back to the default of any missing
    /// key. A blob that is no JSON gives the default configuration.
    #[must_use]
    pub fn from_json(raw: &str) -> (r: Self)
        ensures
            r@ == config_of(document(raw@)),
    {
        match json::parse_text(raw) {
            Some(doc) => FilterConfig::from_value(&doc),
            None => {
                proof {
                    misshapen_configurations_are_the_default(Json::Null);
                }
                FilterConfig::default()
            },
        }
    }

    /// A copy of the configuration.
    #[must_use]
    pub fn copy(&self) -> (r: Self)
        ensures
            r@ == self@,
    {
        let default_partition = match &self.default_partition {
            Some(s) => Some(s.clone()),
            None => None,
        };
        let shared_index = match &self.shared_index {
            Some(s) => Some(s.clone()),
            None => None,
        };
        let r = FilterConfig {
            isolation: self.isolation,
            cluster: self.cluster.clone(),
            cluster_by_partition: self.cluster_by_partition.copy(),
            endpoint: self.endpoint.clone(),
            endpoint_by_partition: self.endpoint_by_partition.copy(),
            partition_header: self.partition_header.clone(),
            partition_from_principal: self.partition_from_principal,
            partition_from_path: self.partition_from_path,
            default_partition,
            index_template: self.index_template.clone(),
            shared_index,
            inject_field: self.inject_field.clone(),
            id_template: self.id_template.clone(),
            routing: self.routing,
            passthrough_indices: text::copy_strings(&self.passthrough_indices),
        };
        assert(r@ =~= self@);
        r
    }
}

/// Every key of a configuration is read under its own name, and one that is absent, or of
/// another type, leaves its default.
pub proof fn every_key_has_its_own_name_and_default(doc: Json)
    ensures
        ({
            let c = config_of(doc);
            &&& c.cluster == match doc.text_at("cluster"@) {
                Some(s) => s,
                None => "opensearch"@,
            }
            &&& c.endpoint == match doc.text_at("endpoint"@) {
                Some(s) => s,
                None => "http://localhost:9200"@,
            }
            &&& c.partition_header == match doc.text_at("partition_header"@) {
                Some(s) => s,
                None => "x-tenant"@,
            }
            &&& c.default_partition == doc.text_at("default_partition"@)
            &&& c.index_template == match doc.text_at("index_template"@) {
                Some(s) => s,
                None => "{partition}"@,
            }
            &&& c.shared_index == doc.text_at("shared_index"@)
            &&& c.inject_field == match doc.text_at("inject_field"@) {
                Some(s) => s,
                None => "_tenant"@,
            }
            &&& c.id_template == match doc.text_at("id_template"@) {
                Some(s) => s,
                None => "{partition}:{body.id}"@,
            }
            &&& c.routing == match doc.bool_at("routing"@) {
                Some(b) => b,
                None => true,
            }
        }),
{
}

/// The isolation is the one that is named, whatever its case, and else follows from
/// whether a shared index is named.
pub proof fn isolation_is_named_or_implied(doc: Json)
    ensures
        ({
            let implied = if doc.text_at("shared_index"@) is Some {
                Isolation::SharedIndex
            } else {
                Isolation::DedicatedCluster
            };
            match doc.text_at("isolation"@) {
                Some(s) => {
                    &&& lower(s) == lower("shared_index"@) ==> config_of(doc).isolation
                        == Isolation::SharedIndex
                    &&& lower(s) == lower("dedicated_index"@) ==> config_of(doc).isolation
                        == Isolation::DedicatedIndex
                    &&& lower(s) == lower("dedicated_cluster"@) ==> config_of(doc).isolation
                        == Isolation::DedicatedCluster
                    &&& lower(s) != lower("shared_index"@) && lower(s) != lower("dedicated_index"@)
                        && lower(s) != lower("dedicated_cluster"@) ==> config_of(doc).isolation
                        == implied
                },
                None => config_of(doc).isolation == implied,
            }
        }),
{
    reveal_strlit("shared_index");
    reveal_strlit("dedicated_index");
    reveal_strlit("dedicated_cluster");
    assert(lower("shared_index"@).len() == 12);
    assert(lower("dedicated_index"@).len() == 15);
    assert(lower("dedicated_cluster"@).len() == 17);
}

/// A named source of the partition decides alone: `principal`, `path`, or else the header.
/// Only where none is named does the older flag count.
pub proof fn a_named_source_decides_alone(doc: Json)
    ensures
        match doc.text_at("partition_source"@) {
            Some(s) => {
                &&& config_of(doc).partition_from_principal == (lower(s) == lower("principal"@))
                &&& config_of(doc).partition_from_path == (lower(s) == lower("path"@))
            },
            None => {
                &&& config_of(doc).partition_from_principal == match doc.bool_at(
                    "partition_from_principal"@,
                ) {
                    Some(b) => b,
                    None => false,
                }
                &&& !config_of(doc).partition_from_path
            },
        },
{
}

/// A map of partitions holds the entries that are strings, each under its own key, and the
/// list of passing indices those elements that are strings.
pub proof fn maps_and_lists_keep_their_strings(doc: Json, partition: Seq<char>, i: int)
    ensures
        match doc.get("cluster_by_partition"@) {
            Some(m) => match m.text_at(partition) {
                Some(s) => config_of(doc).cluster_by_partition.dom().contains(partition)
                    && config_of(doc).cluster_by_partition[partition] == s,
                None => !config_of(doc).cluster_by_partition.dom().contains(partition),
            },
            None => !config_of(doc).cluster_by_partition.dom().contains(partition),
        },
        match doc.get("endpoint_by_partition"@) {
            Some(m) => match m.text_at(partition) {
                Some(s) => config_of(doc).endpoint_by_partition.dom().contains(partition)
                    && config_of(doc).endpoint_by_partition[partition] == s,
                None => !config_of(doc).endpoint_by_partition.dom().contains(partition),
            },
            None => !config_of(doc).endpoint_by_partition.dom().contains(partition),
        },
        match doc.get("passthrough_indices"@) {
            Some(Json::List(items)) => {
                &&& forall|s: Seq<char>|
                    config_of(doc).passthrough_indices.contains(s) <==> #[trigger] items.contains(
                        Json::Text(s),
                    )
            },
            _ => config_of(doc).passthrough_indices.len() == 0,
        },
{
    if let Some(Json::List(items)) = doc.get("passthrough_indices"@) {
        assert forall|s: Seq<char>|
            config_of(doc).passthrough_indices.contains(s) <==> #[trigger] items.contains(
                Json::Text(s),
            ) by {
            lemma_texts(items, s);
        }
    }
}

proof fn lemma_texts(items: Seq<Json>, s: Seq<char>)
    ensures
        texts(items).contains(s) <==> items.contains(Json::Text(s)),
    decreases items.len(),
{
    if items.len() > 0 {
        let front = items.drop_last();
        lemma_texts(front, s);
        let all = texts(items);
        if front.contains(Json::Text(s)) {
            let k = choose|k: int| 0 <= k < front.len() && front[k] == Json::Text(s);
            assert(items[k] == Json::Text(s));
            let j = choose|j: int| 0 <= j < texts(front).len() && texts(front)[j] == s;
            assert(all[j] == s);
        }
        if items.last() == Json::Text(s) {
            assert(items[items.len() - 1] == Json::Text(s));
            assert(all[all.len() - 1] == s);
        }
        if all.contains(s) {
            let j = choose|j: int| 0 <= j < all.len() && all[j] == s;
            if j < texts(front).len() {
                assert(texts(front)[j] == s);
            }
        }
        if items.contains(Json::Text(s)) {
            let k = choose|k: int| 0 <= k < items.len() && items[k] == Json::Text(s);
            if k < front.len() {
                assert(front[k] == Json::Text(s));
            }
        }
    }
}

/// A blob is read as the document that it holds; one that holds none is read as if nothing
/// were configured.
pub proof fn blobs_are_read_as_their_document(raw: Seq<char>)
    ensures
        match parsed(vstd::utf8::encode_utf8(raw)) {
            Some(doc) => config_of(document(raw)) == config_of(doc),
            None => config_of(document(raw)) == config_of(Json::Null),
        },
{
}

} // verus!
