use evoxy::bridge::Bridge;
use evoxy::gates::{check_arch, check_budget, check_crypto_free, count_lines, section_before_dev};
use osproxy_kafka::{AckProducer, InMemoryProducer, ProduceError, Producer};
use std::sync::Mutex;

#[test]
fn forwards_the_transformed_request_as_a_record() {
    let bridge = Bridge::new(InMemoryProducer::new(), "evoxy.fanout");
    // The physical request the proxy would mirror after the filter transformed it.
    let path = "/orders_shared/_doc/acme%3A1";
    let body = br#"{"_tenant":"acme","id":1,"who":"acme"}"#;

    bridge
        .forward(path, body, |producer, topic, key, payload| {
            producer.produce(topic, key, payload)
        })
        .unwrap();

    let produced = bridge.producer().produced();
    assert_eq!(produced.len(), 1);
    let (topic, key, payload) = &produced[0];
    assert_eq!(topic, "evoxy.fanout");
    // Keyed by the physical path so a document's records keep their order.
    assert_eq!(key, path.as_bytes());
    // Payload is the transformed body verbatim (tenancy field already injected).
    assert_eq!(payload, body);
}

#[test]
fn record_is_pure_and_matches_forward() {
    let record = Bridge::<InMemoryProducer>::record("/o/_doc/1", b"{}");
    assert_eq!(record.key, b"/o/_doc/1");
    assert_eq!(record.payload, b"{}");
}

/// An acknowledging producer that records what it was sent.
#[derive(Default)]
struct AckInMemory(Mutex<Vec<(String, Vec<u8>, Vec<u8>)>>);

impl AckProducer for AckInMemory {
    async fn send_acked(
        &self,
        topic: &str,
        key: &[u8],
        payload: &[u8],
    ) -> Result<(), ProduceError> {
        self.0
            .lock()
            .unwrap()
            .push((topic.to_owned(), key.to_vec(), payload.to_vec()));
        Ok(())
    }
}

#[test]
fn forward_acked_awaits_the_broker_ack() {
    let bridge = Bridge::new(AckInMemory::default(), "evoxy.fanout");
    let record = Bridge::<AckInMemory>::record(
        "/orders_shared/_doc/acme%3A1",
        br#"{"_tenant":"acme"}"#,
    );
    tokio::runtime::Builder::new_current_thread()
        .build()
        .unwrap()
        .block_on(
            bridge
                .producer()
                .send_acked(bridge.topic_name(), &record.key, &record.payload),
        )
        .unwrap();
    let got = bridge.producer().0.lock().unwrap();
    assert_eq!(got.len(), 1);
    assert_eq!(got[0].0, "evoxy.fanout");
    assert_eq!(got[0].1, b"/orders_shared/_doc/acme%3A1");
    assert_eq!(got[0].2, br#"{"_tenant":"acme"}"#);
}

#[test]
fn a_failed_produce_is_handed_on() {
    let bridge = Bridge::new((), "t");
    let failed = bridge.forward("/x", b"", |_, topic, _, _| {
        assert_eq!(topic, "t");
        Err(ProduceError { reason: "down" })
    });
    assert_eq!(failed.unwrap_err().reason, "down");
    assert_eq!(bridge.topic_name(), "t");
}

#[test]
fn dev_dependencies_are_not_runtime_ones() {
    let manifest = "[dependencies]\nserde\n[dev-dependencies]\nevoxy-route\n";
    assert_eq!(section_before_dev(manifest), "[dependencies]\nserde\n");
    assert_eq!(section_before_dev("x"), "x");
    assert_eq!(check_arch(manifest, manifest), Ok(()));
    assert_eq!(
        check_arch("evoxy-route evoxy-adapter", ""),
        Err("arch: evoxy-abi must not depend on evoxy-adapter (INV-1)")
    );
    assert_eq!(
        check_arch("evoxy-route", ""),
        Err("arch: evoxy-abi must not depend on evoxy-route (INV-1)")
    );
    assert_eq!(
        check_arch("", "evoxy-route"),
        Err("arch: evoxy-adapter must not depend on evoxy-route (INV-1)")
    );
}

#[test]
fn wire_crypto_is_found_in_a_tree() {
    assert_eq!(check_crypto_free("evoxy-abi", "bytes v1\nstrings v2"), Ok(()));
    assert_eq!(
        check_crypto_free("evoxy-abi", "a v1\n ring v0.17").unwrap_err(),
        "crypto-free: evoxy-abi links `ring` on the data path \u{2014} the wire is Envoy's \
         (ADR-006); keep crypto out of the shipped extension"
    );
    // The first of the list is reported.
    assert!(check_crypto_free("k", "openssl v1\nrustls v0")
        .unwrap_err()
        .contains("`rustls`"));
}

#[test]
fn lines_are_counted_as_the_standard_library_does() {
    for s in ["", "a", "a\n", "a\n\n", "\n", "a\nb", "\n\n\nx"] {
        assert_eq!(count_lines(s), s.lines().count());
    }
    let long = "x\n".repeat(401);
    assert_eq!(
        check_budget("a.rs", &long).unwrap_err(),
        "  a.rs (401 lines)"
    );
    assert_eq!(check_budget("a.rs", &"x\n".repeat(400)), Ok(()));
    assert_eq!(check_budget("a.rs", &format!("// JUSTIFY: y\n{long}")), Ok(()));
}
