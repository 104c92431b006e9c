//! The metric record: the stable output schema shared by every benchmark, and
//! the benchmark suite's fixed sequence.

use crate::http::LoadTotals;
use crate::lint::LintScan;
use crate::normalize::DependencyScan;
use crate::text::{decimal, push_decimal};
use vstd::prelude::*;

verus! {

/// The group a benchmark reports under.
#[derive(Clone, Copy, Debug, PartialEq, Eq, Structural)]
pub enum Category {
    Performance,
    Security,
    Quality,
}

/// A measured value, held exactly; its unit follows from its kind.
#[derive(Clone, Copy, Debug, PartialEq, Eq, Structural)]
pub enum Quantity {
    /// A duration, in seconds (`s`).
    Seconds { nanos: u64 },
    /// A number of things (`count`).
    Count(u64),
    /// `num / den` (`ratio`).
    Ratio { num: u128, den: u128 },
    /// An exit code, -1 where no process ran (`code`).
    Code(i64),
    /// A yes/no flag, 1 or 0 (`flag`).
    Flag(bool),
    /// A size, in kibibytes (`kb`).
    Kilobytes { bytes: u64 },
    /// Bytes processed per time, in mebibytes per second (`mb/s`).
    MegabytesPerSecond { bytes: u64, nanos: u64 },
}

pub open spec fn unit_of(q: Quantity) -> Seq<char> {
    match q {
        Quantity::Seconds { .. } => "s"@,
        Quantity::Count(_) => "count"@,
        Quantity::Ratio { .. } => "ratio"@,
        Quantity::Code(_) => "code"@,
        Quantity::Flag(_) => "flag"@,
        Quantity::Kilobytes { .. } => "kb"@,
        Quantity::MegabytesPerSecond { .. } => "mb/s"@,
    }
}

impl Quantity {
    /// The unit tag of the quantity.
    pub fn unit(&self) -> (r: &'static str)
        ensures
            r@ == unit_of(*self),
    {
        match self {
            Quantity::Seconds { .. } => "s",
            Quantity::Count(_) => "count",
            Quantity::Ratio { .. } => "ratio",
            Quantity::Code(_) => "code",
            Quantity::Flag(_) => "flag",
            Quantity::Kilobytes { .. } => "kb",
            Quantity::MegabytesPerSecond { .. } => "mb/s",
        }
    }
}

/// One named metric of a record.
#[derive(Debug)]
pub struct Metric {
    pub name: String,
    pub quantity: Quantity,
}

pub open spec fn metric_view(m: Metric) -> (Seq<char>, Quantity) {
    (m.name@, m.quantity)
}

/// Names a quantity.
pub fn metric(name: &str, quantity: Quantity) -> (r: Metric)
    ensures
        metric_view(r) == (name@, quantity),
{
    Metric { name: String::from_str(name), quantity }
}

/// The benchmarks of the suite.
#[derive(Clone, Copy, Debug, PartialEq, Eq, Structural)]
pub enum BenchmarkKind {
    MonteCarloPi,
    JsonParseTransform,
    ConcurrentHttpClient,
    EtlMinibatch,
    DependencyScan,
    StaticLint,
    TestReliability,
    BuildStartup,
}

/// The stable identifier of a benchmark.
pub open spec fn benchmark_id_of(k: BenchmarkKind) -> Seq<char> {
    match k {
        BenchmarkKind::MonteCarloPi => "cpu_monte_carlo_pi"@,
        BenchmarkKind::JsonParseTransform => "string_json_parse_transform"@,
        BenchmarkKind::ConcurrentHttpClient => "io_concurrent_http_client"@,
        BenchmarkKind::EtlMinibatch => "data_pipeline_etl_minibatch"@,
        BenchmarkKind::DependencyScan => "dependency_vulnerability_scan_scorecard"@,
        BenchmarkKind::StaticLint => "static_security_lint_benchmark"@,
        BenchmarkKind::TestReliability => "test_robustness_reliability"@,
        BenchmarkKind::BuildStartup => "build_startup_feedback_loop"@,
    }
}

pub open spec fn category_of(k: BenchmarkKind) -> Category {
    match k {
        BenchmarkKind::MonteCarloPi | BenchmarkKind::JsonParseTransform
        | BenchmarkKind::ConcurrentHttpClient | BenchmarkKind::EtlMinibatch => Category::Performance,
        BenchmarkKind::DependencyScan | BenchmarkKind::StaticLint => Category::Security,
        BenchmarkKind::TestReliability | BenchmarkKind::BuildStartup => Category::Quality,
    }
}

impl BenchmarkKind {
    /// The stable identifier of the benchmark.
    pub fn id(&self) -> (r: &'static str)
        ensures
            r@ == benchmark_id_of(*self),
    {
        match self {
            BenchmarkKind::MonteCarloPi => "cpu_monte_carlo_pi",
            BenchmarkKind::JsonParseTransform => "string_json_parse_transform",
            BenchmarkKind::ConcurrentHttpClient => "io_concurrent_http_client",
            BenchmarkKind::EtlMinibatch => "data_pipeline_etl_minibatch",
            BenchmarkKind::DependencyScan => "dependency_vulnerability_scan_scorecard",
            BenchmarkKind::StaticLint => "static_security_lint_benchmark",
            BenchmarkKind::TestReliability => "test_robustness_reliability",
            BenchmarkKind::BuildStartup => "build_startup_feedback_loop",
        }
    }

    /// The category the benchmark reports under.
    pub fn category(&self) -> (r: Category)
        ensures
            r == category_of(*self),
    {
        match self {
            BenchmarkKind::MonteCarloPi | BenchmarkKind::JsonParseTransform
            | BenchmarkKind::ConcurrentHttpClient | BenchmarkKind::EtlMinibatch => {
                Category::Performance
            },
            BenchmarkKind::DependencyScan | BenchmarkKind::StaticLint => Category::Security,
            BenchmarkKind::TestReliability | BenchmarkKind::BuildStartup => Category::Quality,
        }
    }
}

/// The suite, in the order it runs.
pub open spec fn suite_spec() -> Seq<BenchmarkKind> {
    seq![
        BenchmarkKind::MonteCarloPi,
        BenchmarkKind::JsonParseTransform,
        BenchmarkKind::ConcurrentHttpClient,
        BenchmarkKind::EtlMinibatch,
        BenchmarkKind::DependencyScan,
        BenchmarkKind::StaticLint,
        BenchmarkKind::TestReliability,
        BenchmarkKind::BuildStartup,
    ]
}

/// The benchmarks of the suite, in the order they run.
pub fn suite() -> (r: Vec<BenchmarkKind>)
    ensures
        r@ == suite_spec(),
{
    let r = vec![
        BenchmarkKind::MonteCarloPi,
        BenchmarkKind::JsonParseTransform,
        BenchmarkKind::ConcurrentHttpClient,
        BenchmarkKind::EtlMinibatch,
        BenchmarkKind::DependencyScan,
        BenchmarkKind::StaticLint,
        BenchmarkKind::TestReliability,
        BenchmarkKind::BuildStartup,
    ];
    assert(r@ =~= suite_spec());
    r
}

/// What one benchmark measured, apart from its running time.
#[derive(Clone, Copy, Debug, PartialEq, Eq, Structural)]
pub enum Measurement {
    /// Samples drawn, and those that fell inside the quarter circle.
    MonteCarloPi { inside: u64, samples: u64 },
    /// The checksum of the rows after a serialize/deserialize round trip.
    JsonParseTransform { checksum: u64 },
    ConcurrentHttpClient(LoadTotals),
    /// Rows read, their aggregate, and the dataset's size on disk.
    EtlMinibatch { rows: usize, aggregate: u64, size_bytes: u64 },
    DependencyScan(DependencyScan),
    StaticLint(LintScan),
    /// Repeated test runs, and those that failed.
    TestReliability { iterations: usize, failures: usize },
    /// Build and start-up times, the size of the program, and the exit codes.
    BuildStartup {
        build_nanos: u64,
        startup_nanos: u64,
        artifact_bytes: u64,
        build_exit: i32,
        startup_exit: i32,
    },
}

pub open spec fn kind_of(m: Measurement) -> BenchmarkKind {
    match m {
        Measurement::MonteCarloPi { .. } => BenchmarkKind::MonteCarloPi,
        Measurement::JsonParseTransform { .. } => BenchmarkKind::JsonParseTransform,
        Measurement::ConcurrentHttpClient(_) => BenchmarkKind::ConcurrentHttpClient,
        Measurement::EtlMinibatch { .. } => BenchmarkKind::EtlMinibatch,
        Measurement::DependencyScan(_) => BenchmarkKind::DependencyScan,
        Measurement::StaticLint(_) => BenchmarkKind::StaticLint,
        Measurement::TestReliability { .. } => BenchmarkKind::TestReliability,
        Measurement::BuildStartup { .. } => BenchmarkKind::BuildStartup,
    }
}

/// The metric names of a benchmark, in the order its record lists them.
pub open spec fn metric_names(k: BenchmarkKind) -> Seq<Seq<char>> {
    match k {
        BenchmarkKind::MonteCarloPi => seq!["runtime_seconds"@, "pi_estimate"@],
        BenchmarkKind::JsonParseTransform => seq!["runtime_seconds"@, "checksum"@],
        BenchmarkKind::ConcurrentHttpClient => seq![
            "runtime_seconds"@,
            "requests_completed"@,
            "checksum"@,
            "request_errors"@,
        ],
        BenchmarkKind::EtlMinibatch => seq![
            "runtime_seconds"@,
            "records_processed"@,
            "aggregate_value"@,
            "throughput_mb_s"@,
        ],
        BenchmarkKind::DependencyScan => seq![
            "runtime_seconds"@,
            "vulnerability_findings"@,
            "outdated_dependencies"@,
            "audit_exit_code"@,
            "outdated_exit_code"@,
            "tool_available"@,
            "scan_errors"@,
        ],
        BenchmarkKind::StaticLint => seq![
            "runtime_seconds"@,
            "finding_count"@,
            "high_findings"@,
            "medium_findings"@,
            "low_findings"@,
            "lint_exit_code"@,
            "tool_available"@,
            "scan_errors"@,
        ],
        BenchmarkKind::TestReliability => seq![
            "runtime_seconds"@,
            "iterations"@,
            "failed_iterations"@,
            "flaky_rate"@,
        ],
        BenchmarkKind::BuildStartup => seq![
            "runtime_seconds"@,
            "build_seconds"@,
            "startup_seconds"@,
            "artifact_size_kb"@,
            "operation_errors"@,
        ],
    }
}

/// The metric values of a measurement that ran for `nanos`, in the order of
/// `metric_names`.
pub open spec fn metric_values(m: Measurement, nanos: u64) -> Seq<Quantity> {
    let runtime = Quantity::Seconds { nanos };
    match m {
        Measurement::MonteCarloPi { inside, samples } => seq![
            runtime,
            Quantity::Ratio { num: (4 * inside) as u128, den: samples as u128 },
        ],
        Measurement::JsonParseTransform { checksum } => seq![runtime, Quantity::Count(checksum)],
        Measurement::ConcurrentHttpClient(t) => seq![
            runtime,
            Quantity::Count(t.completed as u64),
            Quantity::Count(t.checksum),
            Quantity::Count(t.errors as u64),
        ],
        Measurement::EtlMinibatch { rows, aggregate, size_bytes } => seq![
            runtime,
            Quantity::Count(rows as u64),
            Quantity::Count(aggregate),
            Quantity::MegabytesPerSecond {
                bytes: size_bytes,
                nanos: if nanos == 0 {
                    1
                } else {
                    nanos
                },
            },
        ],
        Measurement::DependencyScan(d) => seq![
            runtime,
            Quantity::Count(d.audit.count),
            Quantity::Count(d.outdated.count),
            Quantity::Code(d.audit.exit_code),
            Quantity::Code(d.outdated.exit_code),
            Quantity::Flag(d.tool_available),
            Quantity::Count(d.scan_errors),
        ],
        Measurement::StaticLint(l) => seq![
            runtime,
            Quantity::Count(l.finding_count as u64),
            Quantity::Count(l.counts.high as u64),
            Quantity::Count(l.counts.medium as u64),
            Quantity::Count(l.counts.low as u64),
            Quantity::Code(l.exit_code),
            Quantity::Flag(l.tool_available),
            Quantity::Count(l.scan_errors),
        ],
        Measurement::TestReliability { iterations, failures } => seq![
            runtime,
            Quantity::Count(iterations as u64),
            Quantity::Count(failures as u64),
            Quantity::Ratio {
                num: failures as u128,
                den: if iterations == 0 {
                    1
                } else {
                    iterations as u128
                },
            },
        ],
        Measurement::BuildStartup {
            build_nanos,
            startup_nanos,
            artifact_bytes,
            build_exit,
            startup_exit,
        } => seq![
            runtime,
            Quantity::Seconds { nanos: build_nanos },
            Quantity::Seconds { nanos: startup_nanos },
            Quantity::Kilobytes { bytes: artifact_bytes },
            Quantity::Count(
                ((if build_exit != 0 {
                    1int
                } else {
                    0int
                }) + (if startup_exit != 0 {
                    1int
                } else {
                    0int
                })) as u64,
            ),
        ],
    }
}

/// The named metrics of a measurement that ran for `nanos`.
pub open spec fn metrics_spec(m: Measurement, nanos: u64) -> Seq<(Seq<char>, Quantity)> {
    let names = metric_names(kind_of(m));
    Seq::new(names.len(), |i: int| (names[i], metric_values(m, nanos)[i]))
}

/// The metrics of a measurement that ran for `nanos` nanoseconds.
pub fn metrics_for(m: &Measurement, nanos: u64) -> (r: Vec<Metric>)
    ensures
        r@.map_values(|x: Metric| metric_view(x)) == metrics_spec(*m, nanos),
{
    let runtime = Quantity::Seconds { nanos };
    let mut r: Vec<Metric> = Vec::new();
    r.push(metric("runtime_seconds", runtime));
    match m {
        Measurement::MonteCarloPi { inside, samples } => {
            r.push(
                metric(
                    "pi_estimate",
                    Quantity::Ratio { num: 4 * (*inside as u128), den: *samples as u128 },
                ),
            );
        },
        Measurement::JsonParseTransform { checksum } => {
            r.push(metric("checksum", Quantity::Count(*checksum)));
        },
        Measurement::ConcurrentHttpClient(t) => {
            r.push(metric("requests_completed", Quantity::Count(t.completed as u64)));
            r.push(metric("checksum", Quantity::Count(t.checksum)));
            r.push(metric("request_errors", Quantity::Count(t.errors as u64)));
        },
        Measurement::EtlMinibatch { rows, aggregate, size_bytes } => {
            r.push(metric("records_processed", Quantity::Count(*rows as u64)));
            r.push(metric("aggregate_value", Quantity::Count(*aggregate)));
            let elapsed: u64 = if nanos == 0 {
                1
            } else {
                nanos
            };
            r.push(
                metric(
                    "throughput_mb_s",
                    Quantity::MegabytesPerSecond { bytes: *size_bytes, nanos: elapsed },
                ),
            );
        },
        Measurement::DependencyScan(d) => {
            r.push(metric("vulnerability_findings", Quantity::Count(d.audit.count)));
            r.push(metric("outdated_dependencies", Quantity::Count(d.outdated.count)));
            r.push(metric("audit_exit_code", Quantity::Code(d.audit.exit_code)));
            r.push(metric("outdated_exit_code", Quantity::Code(d.outdated.exit_code)));
            r.push(metric("tool_available", Quantity::Flag(d.tool_available)));
            r.push(metric("scan_errors", Quantity::Count(d.scan_errors)));
        },
        Measurement::StaticLint(l) => {
            r.push(metric("finding_count", Quantity::Count(l.finding_count as u64)));
            r.push(metric("high_findings", Quantity::Count(l.counts.high as u64)));
            r.push(metric("medium_findings", Quantity::Count(l.counts.medium as u64)));
            r.push(metric("low_findings", Quantity::Count(l.counts.low as u64)));
            r.push(metric("lint_exit_code", Quantity::Code(l.exit_code)));
            r.push(metric("tool_available", Quantity::Flag(l.tool_available)));
            r.push(metric("scan_errors", Quantity::Count(l.scan_errors)));
        },
        Measurement::TestReliability { iterations, failures } => {
            r.push(metric("iterations", Quantity::Count(*iterations as u64)));
            r.push(metric("failed_iterations", Quantity::Count(*failures as u64)));
            let den: u128 = if *iterations == 0 {
                1
            } else {
                *iterations as u128
            };
            r.push(metric("flaky_rate", Quantity::Ratio { num: *failures as u128, den }));
        },
        Measurement::BuildStartup {
            build_nanos,
            startup_nanos,
            artifact_bytes,
            build_exit,
            startup_exit,
        } => {
            r.push(metric("build_seconds", Quantity::Seconds { nanos: *build_nanos }));
            r.push(metric("startup_seconds", Quantity::Seconds { nanos: *startup_nanos }));
            r.push(metric("artifact_size_kb", Quantity::Kilobytes { bytes: *artifact_bytes }));
            let failed: u64 = (if *build_exit != 0 {
                1
            } else {
                0
            }) + (if *startup_exit != 0 {
                1
            } else {
                0
            });
            r.push(metric("operation_errors", Quantity::Count(failed)));
        },
    }
    assert(r@.map_values(|x: Metric| metric_view(x)) =~= metrics_spec(*m, nanos));
    r
}

/// An instant, as seconds and nanoseconds since the Unix epoch.
#[derive(Clone, Copy, Debug, PartialEq, Eq, Structural)]
pub struct Timestamp {
    pub seconds: i64,
    pub nanos: u32,
}

/// Where the records of one run come from; every record of the run shares it.
#[derive(Debug)]
pub struct Provenance {
    pub language: String,
    pub runtime: String,
    pub version: String,
    pub os: String,
    pub cpu_count: usize,
    pub commit_sha: String,
    pub run_id: String,
}

/// One benchmark's result in the stable output schema.
#[derive(Debug)]
pub struct MetricRecord {
    pub benchmark_id: String,
    pub category: Category,
    pub language: String,
    pub runtime: String,
    pub version: String,
    pub os: String,
    pub cpu_count: usize,
    pub metrics: Vec<Metric>,
    pub timestamp: Timestamp,
    pub commit_sha: String,
    pub run_id: String,
}

/// The record of measurement `m`, which ran for `nanos` and was taken at `at`.
pub open spec fn record_of(
    m: Measurement,
    nanos: u64,
    p: Provenance,
    at: Timestamp,
    r: MetricRecord,
) -> bool {
    &&& r.benchmark_id@ == benchmark_id_of(kind_of(m))
    &&& r.category == category_of(kind_of(m))
    &&& r.metrics@.map_values(|x: Metric| metric_view(x)) == metrics_spec(m, nanos)
    &&& r.language@ == p.language@
    &&& r.runtime@ == p.runtime@
    &&& r.version@ == p.version@
    &&& r.os@ == p.os@
    &&& r.cpu_count == p.cpu_count
    &&& r.timestamp == at
    &&& r.commit_sha@ == p.commit_sha@
    &&& r.run_id@ == p.run_id@
}

/// Wraps a measurement into its record.
pub fn make_record(m: &Measurement, nanos: u64, provenance: &Provenance, at: Timestamp) -> (r:
    MetricRecord)
    ensures
        record_of(*m, nanos, *provenance, at, r),
{
    let kind = match m {
        Measurement::MonteCarloPi { .. } => BenchmarkKind::MonteCarloPi,
        Measurement::JsonParseTransform { .. } => BenchmarkKind::JsonParseTransform,
        Measurement::ConcurrentHttpClient(_) => BenchmarkKind::ConcurrentHttpClient,
        Measurement::EtlMinibatch { .. } => BenchmarkKind::EtlMinibatch,
        Measurement::DependencyScan(_) => BenchmarkKind::DependencyScan,
        Measurement::StaticLint(_) => BenchmarkKind::StaticLint,
        Measurement::TestReliability { .. } => BenchmarkKind::TestReliability,
        Measurement::BuildStartup { .. } => BenchmarkKind::BuildStartup,
    };
    MetricRecord {
        benchmark_id: String::from_str(kind.id()),
        category: kind.category(),
        language: provenance.language.clone(),
        runtime: provenance.runtime.clone(),
        version: provenance.version.clone(),
        os: provenance.os.clone(),
        cpu_count: provenance.cpu_count,
        metrics: metrics_for(m, nanos),
        timestamp: at,
        commit_sha: provenance.commit_sha.clone(),
        run_id: provenance.run_id.clone(),
    }
}

/// Records of the same benchmark have the same identity, category and metric
/// names, whatever was measured, however long it took, and whenever it ran.
pub proof fn lemma_record_shape_stable(
    m1: Measurement,
    nanos1: u64,
    prov_a: Provenance,
    at1: Timestamp,
    r1: MetricRecord,
    m2: Measurement,
    nanos2: u64,
    prov_b: Provenance,
    at2: Timestamp,
    r2: MetricRecord,
)
    requires
        kind_of(m1) == kind_of(m2),
        record_of(m1, nanos1, prov_a, at1, r1),
        record_of(m2, nanos2, prov_b, at2, r2),
    ensures
        r1.benchmark_id@ == r2.benchmark_id@,
        r1.category == r2.category,
        r1.metrics@.map_values(|x: Metric| x.name@) == r2.metrics@.map_values(|x: Metric| x.name@),
{
    let s1 = r1.metrics@.map_values(|x: Metric| metric_view(x));
    let s2 = r2.metrics@.map_values(|x: Metric| metric_view(x));
    assert(s1.len() == s2.len());
    assert forall|i: int| 0 <= i < s1.len() implies s1[i].0 == s2[i].0 by {}
    assert(r1.metrics@.map_values(|x: Metric| x.name@) =~= r2.metrics@.map_values(
        |x: Metric| x.name@,
    )) by {
        assert forall|i: int| 0 <= i < r1.metrics@.len() implies r1.metrics@[i].name@
            == r2.metrics@[i].name@ by {
            assert(s1[i].0 == s2[i].0);
        }
    }
}

/// The identifier of a run: `rust-{process id}-{milliseconds since the epoch}`.
pub open spec fn run_id_spec(process_id: u32, millis: i64) -> Seq<char> {
    "rust-"@ + decimal(process_id as nat) + "-"@ + if millis < 0 {
        "-"@ + decimal((-millis) as nat)
    } else {
        decimal(millis as nat)
    }
}

/// Names a run after the process and the time it started.
pub fn run_id(process_id: u32, millis: i64) -> (r: String)
    ensures
        r@ == run_id_spec(process_id, millis),
{
    let mut s = String::from_str("rust-");
    push_decimal(&mut s, process_id as u64);
    s.append("-");
    if millis < 0 {
        s.append("-");
        let magnitude: u64 = (0i128 - millis as i128) as u64;
        push_decimal(&mut s, magnitude);
    } else {
        push_decimal(&mut s, millis as u64);
    }
    s
}

/// The number of non-zero exit codes among `codes`.
pub open spec fn failure_count(codes: Seq<i32>) -> nat
    decreases codes.len(),
{
    if codes.len() == 0 {
        0
    } else {
        failure_count(codes.drop_last()) + if codes.last() != 0 {
            1nat
        } else {
            0nat
        }
    }
}

/// The test-reliability measurement of repeated test runs with these exit codes.
pub fn test_reliability(exit_codes: &Vec<i32>) -> (r: Measurement)
    ensures
        r == (Measurement::TestReliability {
            iterations: exit_codes@.len() as usize,
            failures: failure_count(exit_codes@) as usize,
        }),
        failure_count(exit_codes@) <= exit_codes@.len(),
{
    let mut failures: usize = 0;
    let mut i: usize = 0;
    while i < exit_codes.len()
        invariant
            i <= exit_codes@.len(),
            failures == failure_count(exit_codes@.subrange(0, i as int)),
            failures <= i,
        decreases exit_codes@.len() - i,
    {
        assert(exit_codes@.subrange(0, i + 1).drop_last() =~= exit_codes@.subrange(0, i as int));
        if exit_codes[i] != 0 {
            failures = failures + 1;
        }
        i = i + 1;
    }
    assert(exit_codes@.subrange(0, i as int) =~= exit_codes@);
    Measurement::TestReliability { iterations: exit_codes.len(), failures }
}

} // verus!
