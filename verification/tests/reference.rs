use evoxy::adapter::ANONYMOUS;
use evoxy::config::{FilterConfig, Isolation};
use evoxy::decision::{InjectedValue, MigrationPhase, SpiError};
use evoxy::filter::reference_filter;
use evoxy::lookup::PartitionMap;
use evoxy::reference::{Placement, ReferenceTenancy};

fn tenancy(config: &str) -> ReferenceTenancy {
    ReferenceTenancy::from_config(&FilterConfig::from_json(config))
}

fn placement(config: &str, partition: &str) -> Placement {
    tenancy(config).placement_for(partition).placement
}

/// The physical index of an index-bearing placement.
fn physical_index(placement: &Placement) -> Option<String> {
    match placement {
        Placement::DedicatedIndex { index, .. } | Placement::SharedIndex { index, .. } => {
            Some(index.clone())
        }
        Placement::DedicatedCluster { .. } => None,
    }
}

#[test]
fn config_defaults_are_lenient() {
    let config = FilterConfig::from_json("not json");
    assert_eq!(config.cluster, "opensearch");
    assert_eq!(config.partition_header, "x-tenant");
}

#[test]
fn every_key_of_a_configuration_is_read() {
    let config = FilterConfig::from_json(
        r#"{"isolation":"shared_index","cluster":"c","cluster_by_partition":{"a":"ca","b":7},
            "endpoint":"http://e","endpoint_by_partition":{"a":"http://ea"},
            "partition_header":"x-p","partition_source":"principal","default_partition":"d",
            "index_template":"i-{partition}","shared_index":"s","inject_field":"_f",
            "id_template":"{partition}-{body.k}","routing":false}"#,
    );
    assert!(matches!(config.isolation, Isolation::SharedIndex));
    assert_eq!(config.cluster, "c");
    assert_eq!(config.cluster_by_partition.get("a"), Some("ca"));
    assert_eq!(config.cluster_by_partition.get("b"), None);
    assert_eq!(config.endpoint, "http://e");
    assert_eq!(config.endpoint_by_partition.get("a"), Some("http://ea"));
    assert_eq!(config.partition_header, "x-p");
    assert!(config.partition_from_principal);
    assert_eq!(config.default_partition.as_deref(), Some("d"));
    assert_eq!(config.index_template, "i-{partition}");
    assert_eq!(config.shared_index.as_deref(), Some("s"));
    assert_eq!(config.inject_field, "_f");
    assert_eq!(config.id_template, "{partition}-{body.k}");
    assert!(!config.routing);
}

#[test]
fn values_of_the_wrong_shape_leave_the_default() {
    let config = FilterConfig::from_json(
        r#"{"cluster":7,"routing":"no","partition_source":1,"cluster_by_partition":["a"],"passthrough_indices":"x"}"#,
    );
    let default = FilterConfig::default();
    assert_eq!(config.cluster, default.cluster);
    assert_eq!(config.routing, default.routing);
    assert_eq!(config.partition_from_principal, default.partition_from_principal);
    assert_eq!(config.cluster_by_partition.get("a"), None);
    assert!(config.passthrough_indices.is_empty());
    // A document that is no object has no keys at all.
    assert_eq!(FilterConfig::from_json("[1]").cluster, default.cluster);
}

#[test]
fn a_partition_map_keeps_the_last_value() {
    let mut map = PartitionMap::new();
    assert_eq!(map.get("a"), None);
    map.insert("a", "1");
    map.insert("b", "2");
    map.insert("a", "3");
    assert_eq!(map.get("a"), Some("3"));
    assert_eq!(map.get("b"), Some("2"));
    assert_eq!(map.copy().get("a"), Some("3"));
}

#[test]
fn dedicated_cluster_is_the_default_and_keeps_the_index() {
    let pl = placement(r#"{"cluster":"os"}"#, "acme");
    assert!(matches!(pl, Placement::DedicatedCluster { .. }));
    assert_eq!(pl.cluster(), "os");
}

#[test]
fn cluster_by_partition_overrides_the_default() {
    let cfg = r#"{"cluster":"os_default","cluster_by_partition":{"acme":"os_a"}}"#;
    assert_eq!(placement(cfg, "acme").cluster(), "os_a");
    assert_eq!(placement(cfg, "zzz").cluster(), "os_default");
}

#[test]
fn endpoint_by_partition_overrides_the_default() {
    let cfg = r#"{"endpoint":"http://d:1","endpoint_by_partition":{"acme":"http://a:2"}}"#;
    let t = tenancy(cfg);
    assert_eq!(
        t.placement_for("acme").endpoint.as_deref(),
        Some("http://a:2")
    );
    assert_eq!(
        t.placement_for("zzz").endpoint.as_deref(),
        Some("http://d:1")
    );
}

#[test]
fn dedicated_index_templates_a_per_tenant_index() {
    let cfg =
        r#"{"isolation":"dedicated_index","cluster":"os","index_template":"orders-{partition}"}"#;
    let pl = placement(cfg, "acme");
    assert!(matches!(pl, Placement::DedicatedIndex { .. }));
    assert_eq!(pl.cluster(), "os");
    assert_eq!(physical_index(&pl).expect("an index"), "orders-acme");
    // The default template is the bare partition.
    let bare = placement(r#"{"isolation":"dedicated_index"}"#, "globex");
    assert_eq!(physical_index(&bare).expect("an index"), "globex");
}

#[test]
fn shared_index_is_inferred_and_injects() {
    // `shared_index` present but no `isolation` key: inferred as shared.
    let t = tenancy(r#"{"shared_index":"orders_shared","inject_field":"_t"}"#);
    let pl = t.placement_for("acme").placement;
    assert!(matches!(pl, Placement::SharedIndex { .. }));
    assert_eq!(physical_index(&pl).expect("an index"), "orders_shared");
    assert!(t.doc_id_rule().is_some(), "shared mode constructs an id");
    let fields = t.injected_fields();
    assert_eq!(fields.len(), 1);
    assert_eq!(fields[0].name, "_t");
    assert!(matches!(fields[0].value, InjectedValue::PartitionId));
}

#[test]
fn non_shared_modes_do_not_inject_or_construct_ids() {
    let dedicated = tenancy(r#"{"cluster":"os"}"#);
    assert!(dedicated.doc_id_rule().is_none());
    assert!(dedicated.injected_fields().is_empty());
}

#[test]
fn default_partition_is_used_when_the_source_is_missing() {
    let t = tenancy(r#"{"default_partition":"public"}"#);
    assert_eq!(t.resolve_partition(Some("anonymous"), None).unwrap(), "public");
}

#[test]
fn no_default_fails_closed_when_unresolved() {
    let t = tenancy(r#"{"cluster":"os"}"#);
    assert!(matches!(
        t.resolve_partition(Some("anonymous"), None),
        Err(SpiError::PartitionUnresolved)
    ));
}

#[test]
fn the_header_names_the_partition() {
    let t = tenancy(r#"{"cluster":"os","default_partition":"public"}"#);
    assert_eq!(t.resolve_partition(Some("svc"), Some("acme")).unwrap(), "acme");
}

#[test]
fn the_principal_names_the_partition_whatever_the_header_says() {
    let t = tenancy(r#"{"partition_source":"principal"}"#);
    for header in [None, Some("acme"), Some("other")] {
        assert_eq!(
            t.resolve_partition(Some("spiffe://td/svc"), header).unwrap(),
            "spiffe://td/svc"
        );
    }
}

#[test]
fn cutover_holds_writes_and_carries_the_phase() {
    let frozen = ReferenceTenancy::new("os", "http://os:9200", "x-tenant")
        .with_migration("frozen", MigrationPhase::Cutover);

    // The migrating partition is held; an unrelated one admits.
    assert!(!frozen.admit_write("frozen", 1));
    assert!(frozen.admit_write("acme", 1));

    // The phase is carried on the placement for the migrating partition only.
    let at = frozen.placement_for("frozen");
    assert_eq!(at.phase, MigrationPhase::Cutover);
    let at = frozen.placement_for("acme");
    assert_eq!(at.phase, MigrationPhase::Settled);

    // A draining partition still admits (only cutover rejects).
    let draining = ReferenceTenancy::new("os", "http://os:9200", "x-tenant")
        .with_migration("d", MigrationPhase::Draining);
    assert!(draining.admit_write("d", 1));
}

#[test]
fn explicit_header_source_overrides_the_legacy_bool() {
    let cfg =
        FilterConfig::from_json(r#"{"partition_source":"header","partition_from_principal":true}"#);
    assert!(!cfg.partition_from_principal);
    assert!(!cfg.partition_from_path);
}

#[test]
fn the_legacy_bool_counts_where_no_source_is_named() {
    let cfg = FilterConfig::from_json(r#"{"partition_from_principal":true}"#);
    assert!(cfg.partition_from_principal);
    assert!(!cfg.partition_from_path);
    let cfg = FilterConfig::from_json(r#"{"partition_source":"path"}"#);
    assert!(!cfg.partition_from_principal);
    assert!(cfg.partition_from_path);
}

#[test]
fn explicit_dedicated_cluster_overrides_the_inference() {
    let cfg = FilterConfig::from_json(r#"{"isolation":"dedicated_cluster","shared_index":"s"}"#);
    assert!(matches!(cfg.isolation, Isolation::DedicatedCluster));
}

#[test]
fn passthrough_array_skips_non_strings() {
    let cfg = FilterConfig::from_json(r#"{"passthrough_indices":["catalog",7,null,"logs"]}"#);
    assert_eq!(cfg.passthrough_indices, vec!["catalog", "logs"]);
}

#[test]
fn empty_principal_falls_back_to_the_default_partition() {
    let t = tenancy(r#"{"partition_source":"principal","default_partition":"shared"}"#);
    // An anonymous request carries an empty principal id.
    assert_eq!(t.resolve_partition(Some(""), None).unwrap(), "shared");
}

#[test]
fn a_reference_filter_holds_its_tenancy() {
    let config = FilterConfig::from_json(r#"{"cluster":"os","partition_header":"x-p"}"#);
    let filter = reference_filter(&config);
    assert_eq!(filter.router().partition_header(), "x-p");
    assert_eq!(filter.router().cluster_for("any"), "os");
}

#[test]
fn anonymous_requests_are_no_tenant() {
    let t = tenancy(r#"{"partition_source":"principal","default_partition":"shared"}"#);
    assert_eq!(t.resolve_partition(None, Some("acme")).unwrap(), "shared");
    let t = tenancy(r#"{"partition_source":"principal"}"#);
    assert!(matches!(
        t.resolve_partition(None, Some("acme")),
        Err(SpiError::PartitionUnresolved)
    ));
    // A certificate of that very name is somebody.
    assert_eq!(t.resolve_partition(Some(ANONYMOUS), None).unwrap(), ANONYMOUS);
}
