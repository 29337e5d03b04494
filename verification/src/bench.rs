//! Benchmark summaries: percentiles of measured latencies, and verdicts on them.
//!
//! Everything here is a function of the samples it is given; measuring is left to the
//! caller.
use vstd::prelude::*;
use vstd::relations::sorted_by;
use vstd::relations::total_ordering;
use vstd::slice::slice_subrange;
use vstd::slice::slice_to_vec;
use vstd::string::StringExecFns;
use crate::text;
use crate::text::decimal;

verus! {

/// Nearest-rank percentile summary of a set of latencies, in nanoseconds.
#[derive(Debug, Clone, Copy, PartialEq, Eq, Structural)]
pub struct LatencySummary {
    /// Number of samples summarized.
    pub count: u64,
    /// Smallest sample.
    pub min_ns: u64,
    /// Largest sample.
    pub max_ns: u64,
    /// Arithmetic mean.
    pub mean_ns: u64,
    /// Median.
    pub p50_ns: u64,
    /// 90th percentile.
    pub p90_ns: u64,
    /// 99th percentile.
    pub p99_ns: u64,
}

/// The order of samples.
pub open spec fn at_most() -> spec_fn(u64, u64) -> bool {
    |a: u64, b: u64| a <= b
}

/// The samples in ascending order.
pub open spec fn ascending(samples: Seq<u64>) -> Seq<u64> {
    samples.sort_by(at_most())
}

/// The sum of the samples.
pub open spec fn total(samples: Seq<u64>) -> nat
    decreases samples.len(),
{
    if samples.len() == 0 {
        0
    } else {
        total(samples.drop_last()) + samples.last() as nat
    }
}

/// The rank of a percentile among `n` samples, counted from one: the least whole
/// number that is `p` hundredths of `n` or more, and at least one.
pub open spec fn rank(p: int, n: int) -> int {
    let up = (p * n + 99) / 100;
    if up < 1 {
        1
    } else {
        up
    }
}

/// A nearest-rank percentile of the samples.
pub open spec fn percentile(samples: Seq<u64>, p: int) -> u64 {
    ascending(samples)[rank(p, samples.len() as int) - 1]
}

proof fn lemma_total_order()
    ensures
        total_ordering(at_most()),
{
}

/// Two ascending arrangements of the same samples are one.
proof fn lemma_ascending(samples: Seq<u64>, arranged: Seq<u64>)
    requires
        sorted_by(arranged, at_most()),
        arranged.to_multiset() == samples.to_multiset(),
    ensures
        arranged == ascending(samples),
{
    lemma_total_order();
    samples.lemma_sort_by_ensures(at_most());
    vstd::seq_lib::lemma_sorted_unique(arranged, ascending(samples), at_most());
}

fn merge(a: &Vec<u64>, b: &Vec<u64>) -> (out: Vec<u64>)
    requires
        sorted_by(a@, at_most()),
        sorted_by(b@, at_most()),
    ensures
        sorted_by(out@, at_most()),
        out@.to_multiset() == a@.to_multiset().add(b@.to_multiset()),
{
    broadcast use vstd::seq_lib::group_to_multiset_ensures;
    let mut out: Vec<u64> = Vec::new();
    let mut i: usize = 0;
    let mut j: usize = 0;
    proof {
        assert(a@.take(0) =~= Seq::<u64>::empty());
        assert(b@.take(0) =~= Seq::<u64>::empty());
        assert(out@.to_multiset() =~= a@.take(0).to_multiset().add(b@.take(0).to_multiset()));
    }
    while i < a.len() || j < b.len()
        invariant
            i <= a@.len(),
            j <= b@.len(),
            sorted_by(a@, at_most()),
            sorted_by(b@, at_most()),
            sorted_by(out@, at_most()),
            forall|k: int| 0 <= k < out@.len() && i < a@.len() ==> #[trigger] out@[k] <= a@[i as int],
            forall|k: int| 0 <= k < out@.len() && j < b@.len() ==> #[trigger] out@[k] <= b@[j as int],
            out@.to_multiset() == a@.take(i as int).to_multiset().add(
                b@.take(j as int).to_multiset(),
            ),
        decreases a@.len() - i + b@.len() - j,
    {
        let from_a: bool = if i < a.len() {
            j >= b.len() || a[i] <= b[j]
        } else {
            false
        };
        let ghost before = out@;
        if from_a {
            out.push(a[i]);
            proof {
                vstd::seq_lib::to_multiset_build(before, a@[i as int]);
                vstd::seq_lib::to_multiset_build(a@.take(i as int), a@[i as int]);
                assert(i + 1 < a@.len() ==> at_most()(a@[i as int], a@[i + 1]));
                assert(a@.take(i + 1) =~= a@.take(i as int).push(a@[i as int]));
                assert(out@.to_multiset() =~= a@.take(i + 1).to_multiset().add(
                    b@.take(j as int).to_multiset(),
                ));
            }
            i += 1;
        } else {
            out.push(b[j]);
            proof {
                vstd::seq_lib::to_multiset_build(before, b@[j as int]);
                vstd::seq_lib::to_multiset_build(b@.take(j as int), b@[j as int]);
                assert(j + 1 < b@.len() ==> at_most()(b@[j as int], b@[j + 1]));
                assert(b@.take(j + 1) =~= b@.take(j as int).push(b@[j as int]));
                assert(out@.to_multiset() =~= a@.take(i as int).to_multiset().add(
                    b@.take(j + 1).to_multiset(),
                ));
            }
            j += 1;
        }
    }
    proof {
        assert(a@.take(i as int) =~= a@);
        assert(b@.take(j as int) =~= b@);
    }
    out
}

fn arrange(samples: &[u64]) -> (out: Vec<u64>)
    ensures
        sorted_by(out@, at_most()),
        out@.to_multiset() == samples@.to_multiset(),
    decreases samples@.len(),
{
    let n: usize = samples.len();
    if n < 2 {
        return slice_to_vec(samples);
    }
    let mid: usize = n / 2;
    let left = arrange(slice_subrange(samples, 0, mid));
    let right = arrange(slice_subrange(samples, mid, n));
    let out = merge(&left, &right);
    proof {
        let a = samples@.subrange(0, mid as int);
        let b = samples@.subrange(mid as int, n as int);
        vstd::seq_lib::lemma_multiset_commutative(a, b);
        assert(a + b =~= samples@);
    }
    out
}

fn sum_of(samples: &[u64]) -> (sum: u128)
    ensures
        sum == total(samples@),
        sum <= samples@.len() * u64::MAX,
{
    let mut sum: u128 = 0;
    let mut i: usize = 0;
    assert(samples@.take(0) =~= Seq::<u64>::empty());
    while i < samples.len()
        invariant
            i <= samples@.len(),
            sum == total(samples@.take(i as int)),
            sum <= i * u64::MAX,
        decreases samples@.len() - i,
    {
        proof {
            assert(samples@.take(i + 1).drop_last() =~= samples@.take(i as int));
            assert((i + 1) * u64::MAX == i * u64::MAX + u64::MAX) by (nonlinear_arith);
            assert(i * u64::MAX <= u64::MAX * u64::MAX) by (nonlinear_arith)
                requires
                    i <= u64::MAX,
            ;
        }
        sum = sum + samples[i] as u128;
        i += 1;
    }
    assert(samples@.take(i as int) =~= samples@);
    sum
}

proof fn lemma_rank(p: int, n: int)
    requires
        0 <= p <= 100,
        1 <= n,
    ensures
        1 <= rank(p, n) <= n,
{
    assert((p * n + 99) / 100 <= n) by (nonlinear_arith)
        requires
            0 <= p <= 100,
            1 <= n,
    ;
}

/// Nearest-rank percentile of samples in ascending order.
fn nearest_rank(sorted: &Vec<u64>, p: u64) -> (r: u64)
    requires
        sorted@.len() > 0,
        p <= 100,
    ensures
        r == sorted@[rank(p as int, sorted@.len() as int) - 1],
{
    let n: u128 = sorted.len() as u128;
    proof {
        lemma_rank(p as int, n as int);
        assert(p * n + 99 <= u128::MAX) by (nonlinear_arith)
            requires
                p <= 100,
                n <= u64::MAX,
        ;
        assert(p * n >= 0) by (nonlinear_arith)
            requires
                p >= 0,
                n >= 0,
        ;
    }
    let up: u128 = (p as u128 * n + 99) / 100;
    let rank: u128 = if up < 1 {
        1
    } else {
        up
    };
    sorted[(rank - 1) as usize]
}

/// The text of a summary.
pub open spec fn summary_text(s: LatencySummary) -> Seq<char> {
    "{\"count\": "@ + decimal(s.count as nat) + ", \"min_ns\": "@ + decimal(s.min_ns as nat)
        + ", \"max_ns\": "@ + decimal(s.max_ns as nat) + ", \"mean_ns\": "@ + decimal(
        s.mean_ns as nat,
    ) + ", \"p50_ns\": "@ + decimal(s.p50_ns as nat) + ", \"p90_ns\": "@ + decimal(
        s.p90_ns as nat,
    ) + ", \"p99_ns\": "@ + decimal(s.p99_ns as nat) + "}"@
}

impl LatencySummary {
    /// Summarizes `samples`; `None` if there are none, because no percentile is defined
    /// then.
    #[must_use]
    pub fn from_nanos(samples: &[u64]) -> (r: Option<Self>)
        ensures
            match r {
                None => samples@.len() == 0,
                Some(s) => {
                    &&& samples@.len() > 0
                    &&& s.count == samples@.len()
                    &&& s.min_ns == ascending(samples@)[0]
                    &&& s.max_ns == ascending(samples@).last()
                    &&& s.mean_ns == total(samples@) / samples@.len()
                    &&& s.p50_ns == percentile(samples@, 50)
                    &&& s.p90_ns == percentile(samples@, 90)
                    &&& s.p99_ns == percentile(samples@, 99)
                },
            },
    {
        if samples.len() == 0 {
            return None;
        }
        let sorted = arrange(samples);
        proof {
            lemma_ascending(samples@, sorted@);
            vstd::seq_lib::to_multiset_len(samples@);
            vstd::seq_lib::to_multiset_len(sorted@);
        }
        let n: u128 = samples.len() as u128;
        let sum: u128 = sum_of(samples);
        proof {
            assert(sum / n <= u64::MAX) by (nonlinear_arith)
                requires
                    n >= 1,
                    sum <= n * u64::MAX,
            ;
        }
        Some(
            LatencySummary {
                count: samples.len() as u64,
                min_ns: sorted[0],
                max_ns: sorted[sorted.len() - 1],
                mean_ns: (sum / n) as u64,
                p50_ns: nearest_rank(&sorted, 50),
                p90_ns: nearest_rank(&sorted, 90),
                p99_ns: nearest_rank(&sorted, 99),
            },
        )
    }

    /// The summary as one line of JSON.
    #[must_use]
    pub fn to_json(&self) -> (r: String)
        ensures
            r@ == summary_text(*self),
    {
        let mut out = "{\"count\": ".to_owned();
        text::push_decimal(&mut out, self.count as u128);
        out.append(", \"min_ns\": ");
        text::push_decimal(&mut out, self.min_ns as u128);
        out.append(", \"max_ns\": ");
        text::push_decimal(&mut out, self.max_ns as u128);
        out.append(", \"mean_ns\": ");
        text::push_decimal(&mut out, self.mean_ns as u128);
        out.append(", \"p50_ns\": ");
        text::push_decimal(&mut out, self.p50_ns as u128);
        out.append(", \"p90_ns\": ");
        text::push_decimal(&mut out, self.p90_ns as u128);
        out.append(", \"p99_ns\": ");
        text::push_decimal(&mut out, self.p99_ns as u128);
        out.append("}");
        out
    }

    /// The median latency that this summary adds over `baseline`, zero where it adds
    /// none.
    #[must_use]
    pub fn added_p50_ns(&self, baseline: &LatencySummary) -> (r: u64)
        ensures
            r == if self.p50_ns > baseline.p50_ns {
                self.p50_ns - baseline.p50_ns
            } else {
                0
            },
    {
        self.p50_ns.saturating_sub(baseline.p50_ns)
    }

    /// The tail latency that this summary adds over `baseline`, zero where it adds none.
    #[must_use]
    pub fn added_p99_ns(&self, baseline: &LatencySummary) -> (r: u64)
        ensures
            r == if self.p99_ns > baseline.p99_ns {
                self.p99_ns - baseline.p99_ns
            } else {
                0
            },
    {
        self.p99_ns.saturating_sub(baseline.p99_ns)
    }
}

/// Percentiles rise with their rank, and lie between the least and the greatest
/// sample.
pub proof fn percentiles_are_ordered(samples: Seq<u64>, p: int, q: int)
    requires
        samples.len() > 0,
        0 <= p <= q <= 100,
    ensures
        ascending(samples)[0] <= percentile(samples, p) <= percentile(samples, q) <= ascending(
            samples,
        ).last(),
{
    let n = samples.len() as int;
    let sorted = ascending(samples);
    lemma_total_order();
    samples.lemma_sort_by_ensures(at_most());
    vstd::seq_lib::to_multiset_len(samples);
    vstd::seq_lib::to_multiset_len(sorted);
    lemma_rank(p, n);
    lemma_rank(q, n);
    assert((p * n + 99) / 100 <= (q * n + 99) / 100) by (nonlinear_arith)
        requires
            0 <= p <= q,
            n >= 1,
    ;
    let i = rank(p, n) - 1;
    let j = rank(q, n) - 1;
    assert(i == 0 || at_most()(sorted[0], sorted[i]));
    assert(i == j || at_most()(sorted[i], sorted[j]));
    assert(j == n - 1 || at_most()(sorted[j], sorted[n - 1]));
}

/// A percentile is one of the samples.
pub proof fn percentiles_are_samples(samples: Seq<u64>, p: int)
    requires
        samples.len() > 0,
        0 <= p <= 100,
    ensures
        samples.contains(percentile(samples, p)),
{
    let sorted = ascending(samples);
    lemma_total_order();
    samples.lemma_sort_by_ensures(at_most());
    vstd::seq_lib::to_multiset_len(samples);
    vstd::seq_lib::to_multiset_len(sorted);
    lemma_rank(p, samples.len() as int);
    let x = sorted[rank(p, samples.len() as int) - 1];
    assert(sorted.contains(x));
}

/// One check within a [`Verdict`].
#[derive(Debug, Clone)]
pub struct Finding {
    /// The id of the requirement.
    pub nfr: String,
    /// Whether the check passed.
    pub pass: bool,
    /// What was measured, against what bound.
    pub detail: String,
}

/// The view of a [`Finding`].
pub struct FindingView {
    /// The id of the requirement.
    pub nfr: Seq<char>,
    /// Whether the check passed.
    pub pass: bool,
    /// What was measured.
    pub detail: Seq<char>,
}

impl View for Finding {
    type V = FindingView;

    open spec fn view(&self) -> FindingView {
        FindingView { nfr: self.nfr@, pass: self.pass, detail: self.detail@ }
    }
}

/// The views of a list of findings.
pub open spec fn finding_views(findings: Seq<Finding>) -> Seq<FindingView> {
    Seq::new(findings.len(), |i: int| findings[i]@)
}

/// The outcome of judging a measurement: whether it passes as a whole, and each check.
#[derive(Debug, Clone)]
pub struct Verdict {
    /// Whether every check passed.
    pub pass: bool,
    /// The checks.
    pub findings: Vec<Finding>,
}

/// Whether every check passed.
pub open spec fn all_pass(findings: Seq<FindingView>) -> bool {
    forall|i: int| 0 <= i < findings.len() ==> (#[trigger] findings[i]).pass
}

/// A boolean as JSON writes it.
pub open spec fn bool_text(b: bool) -> Seq<char> {
    if b {
        "true"@
    } else {
        "false"@
    }
}

/// One check as JSON.
pub open spec fn finding_text(f: FindingView) -> Seq<char> {
    "\n    {\n      \"nfr\": \""@ + f.nfr + "\",\n      \"pass\": "@ + bool_text(f.pass)
        + ",\n      \"detail\": \""@ + f.detail + "\"\n    }"@
}

/// A list of checks as JSON, separated by commas.
pub open spec fn findings_text(findings: Seq<FindingView>) -> Seq<char>
    decreases findings.len(),
{
    if findings.len() == 0 {
        seq![]
    } else if findings.len() == 1 {
        finding_text(findings[0])
    } else {
        findings_text(findings.drop_last()) + ","@ + finding_text(findings.last())
    }
}

/// A verdict as JSON.
pub open spec fn verdict_text(pass: bool, findings: Seq<FindingView>) -> Seq<char> {
    "{\n  \"pass\": "@ + bool_text(pass) + ",\n  \"findings\": ["@ + findings_text(findings)
        + "\n  ]\n}"@
}

fn bool_str(b: bool) -> (r: &'static str)
    ensures
        r@ == bool_text(b),
{
    if b {
        "true"
    } else {
        "false"
    }
}

impl Verdict {
    /// The verdict on a list of checks: it passes where every one of them does.
    #[must_use]
    pub fn from_findings(findings: Vec<Finding>) -> (r: Self)
        ensures
            r.findings@ == findings@,
            r.pass == all_pass(finding_views(findings@)),
    {
        let mut pass: bool = true;
        let mut i: usize = 0;
        let ghost all = finding_views(findings@);
        while i < findings.len()
            invariant
                i <= findings@.len(),
                all == finding_views(findings@),
                pass == forall|k: int| 0 <= k < i ==> (#[trigger] all[k]).pass,
            decreases findings@.len() - i,
        {
            assert(all[i as int].pass == findings@[i as int].pass);
            pass = pass && findings[i].pass;
            i += 1;
        }
        Verdict { pass, findings }
    }

    /// The verdict as JSON.
    #[must_use]
    pub fn to_json(&self) -> (r: String)
        ensures
            r@ == verdict_text(self.pass, finding_views(self.findings@)),
    {
        let ghost all = finding_views(self.findings@);
        let mut out = "{\n  \"pass\": ".to_owned();
        out.append(bool_str(self.pass));
        out.append(",\n  \"findings\": [");
        let ghost head = out@;
        let mut i: usize = 0;
        assert(all.take(0) =~= Seq::<FindingView>::empty());
        assert(head + findings_text(all.take(0)) =~= head);
        while i < self.findings.len()
            invariant
                i <= self.findings@.len(),
                all == finding_views(self.findings@),
                out@ == head + findings_text(all.take(i as int)),
            decreases self.findings@.len() - i,
        {
            let f = &self.findings[i];
            proof {
                assert(all.take(i + 1).drop_last() =~= all.take(i as int));
                assert(all.take(i + 1).last() == f@);
            }
            if i > 0 {
                out.append(",");
            }
            let ghost separated = out@;
            out.append("\n    {\n      \"nfr\": \"");
            out.append(f.nfr.as_str());
            out.append("\",\n      \"pass\": ");
            out.append(bool_str(f.pass));
            out.append(",\n      \"detail\": \"");
            out.append(f.detail.as_str());
            out.append("\"\n    }");
            proof {
                assert(out@ =~= separated + finding_text(f@));
                if i == 0 {
                    assert(all.take(0) =~= Seq::<FindingView>::empty());
                    assert(out@ =~= head + findings_text(all.take(i + 1)));
                } else {
                    assert(out@ =~= head + findings_text(all.take(i + 1)));
                }
            }
            i += 1;
        }
        assert(all.take(i as int) =~= all);
        out.append("\n  ]\n}");
        out
    }
}

/// A measured check before it is filed under a requirement.
#[derive(Debug, Clone)]
pub struct Measured {
    /// Whether the bound is kept.
    pub pass: bool,
    /// What was measured, against what bound.
    pub detail: String,
}

fn file_under(nfr: &str, m: Measured) -> (f: Finding)
    ensures
        f@ == (FindingView { nfr: nfr@, pass: m.pass, detail: m.detail@ }),
{
    Finding { nfr: nfr.to_owned(), pass: m.pass, detail: m.detail }
}

/// The verdict on a latency profile: added median, added tail, and connection reuse.
#[must_use]
pub fn latency_verdict(p50: Measured, p99: Measured, reuse: Measured) -> (r: Verdict)
    ensures
        r.pass == (p50.pass && p99.pass && reuse.pass),
        finding_views(r.findings@) == seq![
            FindingView { nfr: "NFR-P1"@, pass: p50.pass, detail: p50.detail@ },
            FindingView { nfr: "NFR-P2"@, pass: p99.pass, detail: p99.detail@ },
            FindingView { nfr: "NFR-P4"@, pass: reuse.pass, detail: reuse.detail@ },
        ],
{
    let findings: Vec<Finding> = vec![
        file_under("NFR-P1", p50),
        file_under("NFR-P2", p99),
        file_under("NFR-P4", reuse),
    ];
    let ghost all = finding_views(findings@);
    proof {
        assert(all =~= seq![
            FindingView { nfr: "NFR-P1"@, pass: p50.pass, detail: p50.detail@ },
            FindingView { nfr: "NFR-P2"@, pass: p99.pass, detail: p99.detail@ },
            FindingView { nfr: "NFR-P4"@, pass: reuse.pass, detail: reuse.detail@ },
        ]);
        assert(all_pass(all) ==> all[0].pass && all[1].pass && all[2].pass);
    }
    Verdict::from_findings(findings)
}

/// The verdict on a scalability curve: bounded tail, and throughput that grows.
#[must_use]
pub fn scalability_verdict(tail: Measured, scaling: Measured) -> (r: Verdict)
    ensures
        r.pass == (tail.pass && scaling.pass),
        finding_views(r.findings@) == seq![
            FindingView { nfr: "NFR-P2"@, pass: tail.pass, detail: tail.detail@ },
            FindingView { nfr: "NFR-P3"@, pass: scaling.pass, detail: scaling.detail@ },
        ],
{
    let findings: Vec<Finding> = vec![
        file_under("NFR-P2", tail),
        file_under("NFR-P3", scaling),
    ];
    let ghost all = finding_views(findings@);
    proof {
        assert(all =~= seq![
            FindingView { nfr: "NFR-P2"@, pass: tail.pass, detail: tail.detail@ },
            FindingView { nfr: "NFR-P3"@, pass: scaling.pass, detail: scaling.detail@ },
        ]);
        assert(all_pass(all) ==> all[0].pass && all[1].pass);
    }
    Verdict::from_findings(findings)
}

/// Samples in ascending order are the same samples, none before a smaller one.
pub proof fn ascending_samples_are_the_samples(samples: Seq<u64>)
    ensures
        ascending(samples).len() == samples.len(),
        ascending(samples).to_multiset() == samples.to_multiset(),
        forall|i: int, j: int|
            0 <= i < j < samples.len() ==> ascending(samples)[i] <= ascending(samples)[j],
{
    let sorted = ascending(samples);
    lemma_total_order();
    samples.lemma_sort_by_ensures(at_most());
    vstd::seq_lib::to_multiset_len(samples);
    vstd::seq_lib::to_multiset_len(sorted);
    assert forall|i: int, j: int| 0 <= i < j < samples.len() implies sorted[i] <= sorted[j] by {
        assert(at_most()(sorted[i], sorted[j]));
    }
}

/// A percentile is the least rank that covers its share of the samples: with it the share
/// is reached, and with one rank less it is not, unless it is the first.
pub proof fn percentiles_have_the_least_covering_rank(samples: Seq<u64>, p: int) -> (k: int)
    requires
        samples.len() > 0,
        0 <= p <= 100,
    ensures
        1 <= k <= samples.len(),
        percentile(samples, p) == ascending(samples)[k - 1],
        100 * k >= p * samples.len(),
        k == 1 || 100 * (k - 1) < p * samples.len(),
{
    let n = samples.len() as int;
    lemma_rank(p, n);
    let k = rank(p, n);
    assert(p * n >= 0) by (nonlinear_arith)
        requires
            p >= 0,
            n >= 0,
    ;
    k
}

/// The sum of the samples takes each of them once.
pub proof fn totals_take_each_sample_once(samples: Seq<u64>, more: u64)
    ensures
        total(Seq::empty()) == 0,
        total(samples.push(more)) == total(samples) + more,
{
    assert(samples.push(more).drop_last() =~= samples);
}

/// A verdict passes exactly where each of its findings does, and a report lists each
/// finding once, in order, with commas between.
pub proof fn verdicts_need_every_finding(findings: Seq<FindingView>, more: FindingView)
    ensures
        all_pass(findings) <==> forall|i: int| 0 <= i < findings.len() ==> (
        #[trigger] findings[i]).pass,
        findings_text(seq![more]) == "\n    {\n      \"nfr\": \""@ + more.nfr
            + "\",\n      \"pass\": "@ + if more.pass {
            "true"@
        } else {
            "false"@
        } + ",\n      \"detail\": \""@ + more.detail + "\"\n    }"@,
        findings.len() > 0 ==> findings_text(findings.push(more)) == findings_text(findings)
            + ","@ + findings_text(seq![more]),
{
    assert(findings.push(more).drop_last() =~= findings);
}

/// Whether a JSON text shows a number under a name.
pub open spec fn shows(shown: Seq<char>, name: Seq<char>, n: nat) -> bool {
    exists|front: Seq<char>, back: Seq<char>|
        {
            &&& shown == #[trigger] (front + ("\""@ + name + "\": "@ + decimal(n)) + back)
            &&& back.len() > 0 && (back[0] == ',' || back[0] == '}')
        }
}

proof fn lemma_shows(
    front: Seq<char>,
    gap: Seq<char>,
    label: Seq<char>,
    name: Seq<char>,
    n: nat,
    back: Seq<char>,
)
    requires
        label == gap + ("\""@ + name + "\": "@),
        back.len() > 0,
        back[0] == ',' || back[0] == '}',
    ensures
        shows(front + label + decimal(n) + back, name, n),
{
    let whole = front + label + decimal(n) + back;
    assert(whole =~= (front + gap) + ("\""@ + name + "\": "@ + decimal(n)) + back);
}

proof fn lemma_still_shows(shown: Seq<char>, more: Seq<char>)
    ensures
        forall|name: Seq<char>, n: nat| #[trigger]
            shows(shown, name, n) ==> shows(shown + more, name, n),
{
    assert forall|name: Seq<char>, n: nat| #[trigger] shows(shown, name, n) implies shows(
        shown + more,
        name,
        n,
    ) by {
        let (front, back) = choose|front: Seq<char>, back: Seq<char>|
            {
                &&& shown == #[trigger] (front + ("\""@ + name + "\": "@ + decimal(n)) + back)
                &&& back.len() > 0 && (back[0] == ',' || back[0] == '}')
            };
        assert(shown + more =~= front + ("\""@ + name + "\": "@ + decimal(n)) + (back + more));
    }
}

/// A summary shows every figure under its own name.
pub proof fn summaries_show_every_figure(s: LatencySummary)
    ensures
        shows(summary_text(s), "count"@, s.count as nat),
        shows(summary_text(s), "min_ns"@, s.min_ns as nat),
        shows(summary_text(s), "max_ns"@, s.max_ns as nat),
        shows(summary_text(s), "mean_ns"@, s.mean_ns as nat),
        shows(summary_text(s), "p50_ns"@, s.p50_ns as nat),
        shows(summary_text(s), "p90_ns"@, s.p90_ns as nat),
        shows(summary_text(s), "p99_ns"@, s.p99_ns as nat),
{
    let none = Seq::<char>::empty();
    let t0 = "{\"count\": "@ + decimal(s.count as nat);
    let t1 = t0 + ", \"min_ns\": "@ + decimal(s.min_ns as nat);
    let t2 = t1 + ", \"max_ns\": "@ + decimal(s.max_ns as nat);
    let t3 = t2 + ", \"mean_ns\": "@ + decimal(s.mean_ns as nat);
    let t4 = t3 + ", \"p50_ns\": "@ + decimal(s.p50_ns as nat);
    let t5 = t4 + ", \"p90_ns\": "@ + decimal(s.p90_ns as nat);
    let t6 = t5 + ", \"p99_ns\": "@ + decimal(s.p99_ns as nat);
    lemma_labels();
    assert(none + "{\"count\": "@ =~= "{\"count\": "@);
    let gap = seq![',', ' '];
    lemma_shows(none, seq!['{'], "{\"count\": "@, "count"@, s.count as nat, ", \"min_ns\": "@);
    lemma_still_shows(t0 + ", \"min_ns\": "@, decimal(s.min_ns as nat));
    lemma_shows(t0, gap, ", \"min_ns\": "@, "min_ns"@, s.min_ns as nat, ", \"max_ns\": "@);
    lemma_still_shows(t1, ", \"max_ns\": "@);
    lemma_still_shows(t1 + ", \"max_ns\": "@, decimal(s.max_ns as nat));
    lemma_shows(t1, gap, ", \"max_ns\": "@, "max_ns"@, s.max_ns as nat, ", \"mean_ns\": "@);
    lemma_still_shows(t2, ", \"mean_ns\": "@);
    lemma_still_shows(t2 + ", \"mean_ns\": "@, decimal(s.mean_ns as nat));
    lemma_shows(t2, gap, ", \"mean_ns\": "@, "mean_ns"@, s.mean_ns as nat, ", \"p50_ns\": "@);
    lemma_still_shows(t3, ", \"p50_ns\": "@);
    lemma_still_shows(t3 + ", \"p50_ns\": "@, decimal(s.p50_ns as nat));
    lemma_shows(t3, gap, ", \"p50_ns\": "@, "p50_ns"@, s.p50_ns as nat, ", \"p90_ns\": "@);
    lemma_still_shows(t4, ", \"p90_ns\": "@);
    lemma_still_shows(t4 + ", \"p90_ns\": "@, decimal(s.p90_ns as nat));
    lemma_shows(t4, gap, ", \"p90_ns\": "@, "p90_ns"@, s.p90_ns as nat, ", \"p99_ns\": "@);
    lemma_still_shows(t5, ", \"p99_ns\": "@);
    lemma_still_shows(t5 + ", \"p99_ns\": "@, decimal(s.p99_ns as nat));
    lemma_shows(t5, gap, ", \"p99_ns\": "@, "p99_ns"@, s.p99_ns as nat, "}"@);
    lemma_still_shows(t6, "}"@);
}

/// Each label is its name in quotes and a colon.
proof fn lemma_labels()
    ensures
        "{\"count\": "@ == seq!['{'] + ("\""@ + "count"@ + "\": "@),
        ", \"min_ns\": "@ == seq![',', ' '] + ("\""@ + "min_ns"@ + "\": "@),
        ", \"max_ns\": "@ == seq![',', ' '] + ("\""@ + "max_ns"@ + "\": "@),
        ", \"mean_ns\": "@ == seq![',', ' '] + ("\""@ + "mean_ns"@ + "\": "@),
        ", \"p50_ns\": "@ == seq![',', ' '] + ("\""@ + "p50_ns"@ + "\": "@),
        ", \"p90_ns\": "@ == seq![',', ' '] + ("\""@ + "p90_ns"@ + "\": "@),
        ", \"p99_ns\": "@ == seq![',', ' '] + ("\""@ + "p99_ns"@ + "\": "@),
        "}"@ == seq!['}'],
{
    reveal_strlit("{\"count\": ");
    reveal_strlit(", \"min_ns\": ");
    reveal_strlit(", \"max_ns\": ");
    reveal_strlit(", \"mean_ns\": ");
    reveal_strlit(", \"p50_ns\": ");
    reveal_strlit(", \"p90_ns\": ");
    reveal_strlit(", \"p99_ns\": ");
    reveal_strlit("}");
    reveal_strlit("\"");
    reveal_strlit("\": ");
    reveal_strlit("count");
    reveal_strlit("min_ns");
    reveal_strlit("max_ns");
    reveal_strlit("mean_ns");
    reveal_strlit("p50_ns");
    reveal_strlit("p90_ns");
    reveal_strlit("p99_ns");
    assert("{\"count\": "@ =~= seq!['{'] + ("\""@ + "count"@ + "\": "@));
    assert(", \"min_ns\": "@ =~= seq![',', ' '] + ("\""@ + "min_ns"@ + "\": "@));
    assert(", \"max_ns\": "@ =~= seq![',', ' '] + ("\""@ + "max_ns"@ + "\": "@));
    assert(", \"mean_ns\": "@ =~= seq![',', ' '] + ("\""@ + "mean_ns"@ + "\": "@));
    assert(", \"p50_ns\": "@ =~= seq![',', ' '] + ("\""@ + "p50_ns"@ + "\": "@));
    assert(", \"p90_ns\": "@ =~= seq![',', ' '] + ("\""@ + "p90_ns"@ + "\": "@));
    assert(", \"p99_ns\": "@ =~= seq![',', ' '] + ("\""@ + "p99_ns"@ + "\": "@));
    assert("}"@ =~= seq!['}']);
}

/// A verdict is the text of its outcome and of its findings, each told in order.
pub proof fn verdicts_tell_outcome_and_findings(pass: bool, findings: Seq<FindingView>)
    ensures
        verdict_text(true, findings) == "{\n  \"pass\": "@ + "true"@ + ",\n  \"findings\": ["@
            + findings_text(findings) + "\n  ]\n}"@,
        verdict_text(false, findings) == "{\n  \"pass\": "@ + "false"@ + ",\n  \"findings\": ["@
            + findings_text(findings) + "\n  ]\n}"@,
{
}

} // verus!
