use rust_benchmarks::etl::{dataset_line, EtlTally};
use rust_benchmarks::http::LoadTotals;
use rust_benchmarks::record::{
    make_record, metrics_for, run_id, suite, test_reliability, BenchmarkKind, Category,
    Measurement, Provenance, Quantity, Timestamp,
};
use rust_benchmarks::rng::xorshift_next;

fn provenance() -> Provenance {
    Provenance {
        language: "rust".to_string(),
        runtime: "rust".to_string(),
        version: "rustc 1.80.0".to_string(),
        os: "linux".to_string(),
        cpu_count: 8,
        commit_sha: "abc1234".to_string(),
        run_id: "rust-1-2".to_string(),
    }
}

fn names(m: &Measurement, nanos: u64) -> Vec<String> {
    metrics_for(m, nanos).into_iter().map(|x| x.name).collect()
}

#[test]
fn suite_runs_in_fixed_order() {
    let ids: Vec<&str> = suite().iter().map(|k| k.id()).collect();
    assert_eq!(
        ids,
        vec![
            "cpu_monte_carlo_pi",
            "string_json_parse_transform",
            "io_concurrent_http_client",
            "data_pipeline_etl_minibatch",
            "dependency_vulnerability_scan_scorecard",
            "static_security_lint_benchmark",
            "test_robustness_reliability",
            "build_startup_feedback_loop",
        ]
    );
    assert_eq!(BenchmarkKind::StaticLint.category(), Category::Security);
    assert_eq!(BenchmarkKind::BuildStartup.category(), Category::Quality);
}

#[test]
fn http_record_metrics() {
    let m = Measurement::ConcurrentHttpClient(LoadTotals { completed: 100, checksum: 4950, errors: 0 });
    let r = make_record(&m, 1_500_000_000, &provenance(), Timestamp { seconds: 1_700_000_000, nanos: 5 });
    assert_eq!(r.benchmark_id, "io_concurrent_http_client");
    assert_eq!(r.category, Category::Performance);
    assert_eq!(r.run_id, "rust-1-2");
    assert_eq!(r.commit_sha, "abc1234");
    let got: Vec<(String, Quantity)> = r.metrics.into_iter().map(|x| (x.name, x.quantity)).collect();
    assert_eq!(
        got,
        vec![
            ("runtime_seconds".to_string(), Quantity::Seconds { nanos: 1_500_000_000 }),
            ("requests_completed".to_string(), Quantity::Count(100)),
            ("checksum".to_string(), Quantity::Count(4950)),
            ("request_errors".to_string(), Quantity::Count(0)),
        ]
    );
}

#[test]
fn records_of_two_runs_share_their_shape() {
    let a = Measurement::MonteCarloPi { inside: 10, samples: 12 };
    let b = Measurement::MonteCarloPi { inside: 3, samples: 4 };
    assert_eq!(names(&a, 5), names(&b, 999));
    let ra = make_record(&a, 5, &provenance(), Timestamp { seconds: 1, nanos: 0 });
    let rb = make_record(&b, 7, &provenance(), Timestamp { seconds: 2, nanos: 0 });
    assert_eq!(ra.benchmark_id, rb.benchmark_id);
    assert_eq!(ra.category, rb.category);
}

#[test]
fn pi_estimate_is_four_times_inside_ratio() {
    let m = metrics_for(&Measurement::MonteCarloPi { inside: 785, samples: 1000 }, 1);
    assert_eq!(m[1].name, "pi_estimate");
    assert_eq!(m[1].quantity, Quantity::Ratio { num: 3140, den: 1000 });
    assert_eq!(m[1].quantity.unit(), "ratio");
}

#[test]
fn flaky_rate_over_iterations() {
    let m = test_reliability(&vec![0, 1, 0, 101]);
    assert_eq!(m, Measurement::TestReliability { iterations: 4, failures: 2 });
    let metrics = metrics_for(&m, 10);
    assert_eq!(metrics[3].quantity, Quantity::Ratio { num: 2, den: 4 });
    let none = metrics_for(&test_reliability(&vec![]), 10);
    assert_eq!(none[3].quantity, Quantity::Ratio { num: 0, den: 1 });
}

#[test]
fn build_startup_counts_failed_operations() {
    let m = Measurement::BuildStartup {
        build_nanos: 3,
        startup_nanos: 4,
        artifact_bytes: 2048,
        build_exit: 0,
        startup_exit: 1,
    };
    let metrics = metrics_for(&m, 9);
    assert_eq!(metrics[3].quantity, Quantity::Kilobytes { bytes: 2048 });
    assert_eq!(metrics[4].name, "operation_errors");
    assert_eq!(metrics[4].quantity, Quantity::Count(1));
    assert_eq!(metrics[3].quantity.unit(), "kb");
}

#[test]
fn etl_throughput_never_divides_by_zero_time() {
    let m = Measurement::EtlMinibatch { rows: 2, aggregate: 7, size_bytes: 1024 };
    let metrics = metrics_for(&m, 0);
    assert_eq!(metrics[3].quantity, Quantity::MegabytesPerSecond { bytes: 1024, nanos: 1 });
    assert_eq!(metrics[3].quantity.unit(), "mb/s");
}

#[test]
fn run_id_format() {
    assert_eq!(run_id(42, 1_700_000_000_123), "rust-42-1700000000123");
    assert_eq!(run_id(0, 0), "rust-0-0");
    assert_eq!(run_id(7, -5), "rust-7--5");
    assert_eq!(run_id(u32::MAX, i64::MIN), format!("rust-{}-{}", u32::MAX, i64::MIN));
}

#[test]
fn dataset_lines() {
    assert_eq!(dataset_line(0), "{\"group\":0,\"id\":0,\"score\":17,\"value\":11}");
    assert_eq!(dataset_line(123), "{\"group\":23,\"id\":123,\"score\":1616,\"value\":872}");
    assert_eq!(dataset_line(2000), "{\"group\":0,\"id\":2000,\"score\":6017,\"value\":4011}");
}

#[test]
fn etl_tally_reads_rows() {
    let mut t = EtlTally::new();
    t.absorb(&dataset_line(123));
    // (872 * 3 + 23) % 1000 = 639
    assert_eq!(t, EtlTally { rows: 1, aggregate: 639 });
    t.absorb("not json");
    t.absorb("{\"group\":1}");
    t.absorb("{\"group\":-1,\"value\":2}");
    assert_eq!(t, EtlTally { rows: 1, aggregate: 639 });
    t.absorb("[5, 400]");
    assert_eq!(t, EtlTally { rows: 2, aggregate: 639 + 205 });
    t.absorb("{\"value\":18446744073709551615,\"group\":18446744073709551615}");
    // (3 * (2^64 - 1) + 2^64 - 1) % 1000 = (2^66 - 4) % 1000 = 460
    assert_eq!(t.rows, 3);
    assert_eq!(t.aggregate, 639 + 205 + 460);
}

#[test]
fn xorshift_steps() {
    assert_eq!(xorshift_next(42), 45454805674);
    assert_eq!(xorshift_next(45454805674), 11532217803599905471);
    assert_eq!(xorshift_next(0), 0);
}
