use evoxy::bench::{
    latency_verdict, scalability_verdict, Finding, LatencySummary, Measured, Verdict,
};

fn summary(samples: &[u64]) -> LatencySummary {
    LatencySummary::from_nanos(samples).expect("non-empty")
}

fn measured(pass: bool, detail: &str) -> Measured {
    Measured {
        pass,
        detail: detail.to_owned(),
    }
}

#[test]
fn empty_samples_have_no_summary() {
    assert!(LatencySummary::from_nanos(&[]).is_none());
}

#[test]
fn nearest_rank_percentiles_are_stable() {
    let s = summary(&(1..=100).map(|v| v * 1_000).collect::<Vec<_>>());
    assert_eq!(s.count, 100);
    assert_eq!(s.min_ns, 1_000);
    assert_eq!(s.max_ns, 100_000);
    // nearest-rank: p50 = rank 50, p90 = 90, p99 = 99.
    assert_eq!(s.p50_ns, 50_000);
    assert_eq!(s.p90_ns, 90_000);
    assert_eq!(s.p99_ns, 99_000);
}

#[test]
fn the_order_of_samples_does_not_count() {
    let a = summary(&[5, 1, 4, 1, 3, 9, 2]);
    let b = summary(&[9, 5, 4, 3, 2, 1, 1]);
    assert_eq!(a, b);
    assert_eq!(a.min_ns, 1);
    assert_eq!(a.max_ns, 9);
    assert_eq!(a.mean_ns, 3);
    assert_eq!(a.p50_ns, 3);
    assert_eq!(a.p90_ns, 9);
}

#[test]
fn extreme_samples_do_not_overflow() {
    let s = summary(&[u64::MAX, u64::MAX, u64::MAX]);
    assert_eq!(s.mean_ns, u64::MAX);
    assert_eq!(s.p99_ns, u64::MAX);
    let one = summary(&[7]);
    assert_eq!(one.p50_ns, 7);
    assert_eq!(one.count, 1);
}

#[test]
fn added_latency_is_saturating() {
    let baseline = summary(&[10, 10, 10]);
    let proxy = summary(&[30, 30, 30]);
    assert_eq!(proxy.added_p50_ns(&baseline), 20);
    assert_eq!(proxy.added_p99_ns(&baseline), 20);
    // A faster proxy than baseline never underflows.
    assert_eq!(baseline.added_p50_ns(&proxy), 0);
    assert_eq!(baseline.added_p99_ns(&proxy), 0);
}

#[test]
fn summary_renders_its_fields() {
    assert_eq!(
        summary(&[2, 4]).to_json(),
        "{\"count\": 2, \"min_ns\": 2, \"max_ns\": 4, \"mean_ns\": 3, \
         \"p50_ns\": 2, \"p90_ns\": 4, \"p99_ns\": 4}"
    );
}

#[test]
fn verdict_passes_only_where_every_check_does() {
    let ok = latency_verdict(measured(true, "a"), measured(true, "b"), measured(true, "c"));
    assert!(ok.pass);
    let ids: Vec<&str> = ok.findings.iter().map(|f| f.nfr.as_str()).collect();
    assert_eq!(ids, vec!["NFR-P1", "NFR-P2", "NFR-P4"]);
    assert!(!latency_verdict(measured(true, ""), measured(false, ""), measured(true, "")).pass);
    let curve = scalability_verdict(measured(true, "t"), measured(false, "s"));
    assert!(!curve.pass);
    assert_eq!(curve.findings[0].nfr, "NFR-P2");
    assert_eq!(curve.findings[1].nfr, "NFR-P3");
    assert!(Verdict::from_findings(Vec::new()).pass);
}

#[test]
fn verdict_renders_its_findings() {
    let finding = |nfr: &str, pass: bool| Finding {
        nfr: nfr.to_owned(),
        pass,
        detail: "d".to_owned(),
    };
    let v = Verdict::from_findings(vec![finding("A", true), finding("B", false)]);
    assert_eq!(
        v.to_json(),
        "{\n  \"pass\": false,\n  \"findings\": [\
         \n    {\n      \"nfr\": \"A\",\n      \"pass\": true,\n      \"detail\": \"d\"\n    },\
         \n    {\n      \"nfr\": \"B\",\n      \"pass\": false,\n      \"detail\": \"d\"\n    }\
         \n  ]\n}"
    );
    assert_eq!(
        Verdict::from_findings(Vec::new()).to_json(),
        "{\n  \"pass\": true,\n  \"findings\": [\n  ]\n}"
    );
}
