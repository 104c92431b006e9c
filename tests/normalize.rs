use rust_benchmarks::lint::{
    classify_clippy_finding, parse_clippy_messages, severity, static_lint, LintCounts, Severity,
};
use rust_benchmarks::normalize::{
    dependency_scan, scan_document, DocumentScan, DocumentTool, ToolRun,
};

fn finished(exit_code: i32, stdout: &str) -> ToolRun {
    ToolRun::Finished { exit_code, stdout: stdout.to_string(), stderr: String::new() }
}

fn audit(stdout: &str) -> DocumentScan {
    scan_document(DocumentTool::Audit, &finished(0, stdout))
}

fn outdated(stdout: &str) -> DocumentScan {
    scan_document(DocumentTool::Outdated, &finished(0, stdout))
}

#[test]
fn classifier_buckets() {
    assert_eq!(classify_clippy_finding("clippy::unwrap_used"), "high");
    assert_eq!(classify_clippy_finding("clippy::perf_foo"), "medium");
    assert_eq!(classify_clippy_finding("clippy::unused_imports"), "low");
    assert_eq!(classify_clippy_finding(""), "low");
}

#[test]
fn classifier_high_wins_over_medium() {
    assert_eq!(severity("clippy::perf_panic"), Severity::High);
    assert_eq!(severity("clippy::indexing_slicing"), Severity::High);
    assert_eq!(severity("clippy::todo"), Severity::High);
    assert_eq!(severity("clippy::suspicious_map"), Severity::Medium);
    assert_eq!(severity("clippy::cognitive_complexity"), Severity::Medium);
}

#[test]
fn audit_counts_vulnerability_array() {
    assert_eq!(audit("{\"vulnerabilities\":[{},{},{}]}"), DocumentScan { count: 3, exit_code: 0, errors: 0 });
}

#[test]
fn audit_counts_advisory_section() {
    assert_eq!(audit("{\"advisories\":{\"count\":5}}").count, 5);
}

#[test]
fn audit_section_fallbacks() {
    assert_eq!(audit("{\"vulnerabilities\":{\"found\":true,\"count\":2,\"list\":[1,2,3]}}").count, 2);
    assert_eq!(audit("{\"vulnerabilities\":{\"found_count\":4}}").count, 4);
    assert_eq!(audit("{\"vulnerabilities\":{\"list\":[1,2]}}").count, 2);
    assert_eq!(audit("{\"advisories\":{\"items\":[1]}}").count, 1);
    // an unusable vulnerabilities section gives way to the advisories one
    assert_eq!(audit("{\"vulnerabilities\":{\"x\":1},\"advisories\":[1,2]}").count, 2);
    assert_eq!(audit("{\"found_count\":7}").count, 7);
    assert_eq!(audit("[1,2,3,4]").count, 4);
    assert_eq!(audit("{\"other\":1}").count, 0);
    assert_eq!(audit("{\"count\":-1}").count, 0);
}

#[test]
fn audit_invalid_json_is_one_error() {
    assert_eq!(audit("not json at all"), DocumentScan { count: 0, exit_code: 0, errors: 1 });
}

#[test]
fn audit_nonzero_exit_is_an_error_even_when_parsed() {
    let scan = scan_document(DocumentTool::Audit, &finished(1, "{\"vulnerabilities\":[{}]}"));
    assert_eq!(scan, DocumentScan { count: 1, exit_code: 1, errors: 1 });
    let scan = scan_document(DocumentTool::Audit, &finished(2, "garbage"));
    assert_eq!(scan, DocumentScan { count: 0, exit_code: 2, errors: 2 });
}

#[test]
fn missing_tool_is_one_error_and_sentinel_code() {
    let scan = scan_document(DocumentTool::Outdated, &ToolRun::Unavailable);
    assert_eq!(scan, DocumentScan { count: 0, exit_code: -1, errors: 1 });
}

#[test]
fn outdated_counts_top_level_array() {
    assert_eq!(outdated("[{},{},{},{}]").count, 4);
}

#[test]
fn outdated_counts_dependencies_member() {
    assert_eq!(outdated("{\"dependencies\":[{\"name\":\"a\"}]}").count, 1);
}

#[test]
fn outdated_key_order_and_fallbacks() {
    assert_eq!(outdated("{\"results\":[1],\"outdated\":[1,2]}").count, 2);
    assert_eq!(outdated("{\"packages\":[1,2,3]}").count, 3);
    assert_eq!(outdated("{\"count\":6}").count, 6);
    assert_eq!(outdated("{\"a\":{},\"b\":{\"v\":1}}").count, 2);
    assert_eq!(outdated("{\"a\":{},\"b\":1}").count, 0);
    assert_eq!(outdated("{}").count, 0);
    assert_eq!(outdated("\"text\"").count, 0);
}

#[test]
fn dependency_scorecard_sums_errors() {
    let d = dependency_scan(&finished(1, "{\"vulnerabilities\":{\"count\":2}}"), &ToolRun::Unavailable);
    assert_eq!(d.audit, DocumentScan { count: 2, exit_code: 1, errors: 1 });
    assert_eq!(d.outdated, DocumentScan { count: 0, exit_code: -1, errors: 1 });
    assert!(d.tool_available);
    assert_eq!(d.scan_errors, 2);
    let d = dependency_scan(&ToolRun::Unavailable, &finished(0, "[1]"));
    assert!(!d.tool_available);
    assert_eq!(d.outdated.count, 1);
    assert_eq!(d.scan_errors, 1);
}

const WARNING_UNWRAP: &str = "{\"reason\":\"compiler-message\",\"message\":{\"level\":\"warning\",\"code\":{\"code\":\"clippy::unwrap_used\"}}}";

#[test]
fn lint_warning_line_is_high_finding() {
    let counts = parse_clippy_messages(WARNING_UNWRAP);
    assert_eq!(counts, LintCounts { high: 1, medium: 0, low: 0, parse_errors: 0 });
    let scan = static_lint(&finished(0, WARNING_UNWRAP));
    assert_eq!(scan.counts.high, 1);
    assert_eq!(scan.finding_count, 1);
    assert_eq!(scan.scan_errors, 0);
}

#[test]
fn lint_note_is_ignored() {
    let line = "{\"reason\":\"compiler-message\",\"message\":{\"level\":\"note\",\"code\":{\"code\":\"clippy::unwrap_used\"}}}";
    assert_eq!(parse_clippy_messages(line), LintCounts { high: 0, medium: 0, low: 0, parse_errors: 0 });
}

#[test]
fn lint_noise_line_is_neither_error_nor_finding() {
    let out = "   Compiling foo v0.1.0\nwarning: build finished\n\n";
    assert_eq!(parse_clippy_messages(out), LintCounts { high: 0, medium: 0, low: 0, parse_errors: 0 });
}

#[test]
fn lint_malformed_records_are_parse_errors() {
    let out = "{\"reason\":\"compiler-message\"\n  {broken\n{\"reason\":\"compiler-message\"}\n";
    assert_eq!(parse_clippy_messages(out).parse_errors, 3);
}

#[test]
fn lint_skips_other_reasons_and_foreign_codes() {
    let out = [
        "{\"reason\":\"compiler-artifact\",\"message\":{\"level\":\"warning\"}}\n",
        "{\"reason\":\"compiler-message\",\"message\":{\"level\":\"warning\",\"code\":{\"code\":\"unused_imports\"}}}\n",
        "{\"reason\":\"compiler-message\",\"message\":{\"level\":\"warning\",\"code\":null}}\r\n",
        "{\"reason\":\"compiler-message\",\"message\":{\"level\":\"warning\",\"code\":{\"code\":\"clippy::needless_range_loop\"}}}\n",
        "{\"reason\":\"compiler-message\",\"message\":{\"level\":\"warning\",\"code\":{\"code\":\"clippy::perf_thing\"}}}",
    ]
    .concat();
    assert_eq!(parse_clippy_messages(&out), LintCounts { high: 0, medium: 1, low: 2, parse_errors: 0 });
}

#[test]
fn lint_reads_stdout_and_stderr() {
    let run = ToolRun::Finished {
        exit_code: 101,
        stdout: WARNING_UNWRAP.to_string(),
        stderr: format!("{{oops\n{WARNING_UNWRAP}"),
    };
    let scan = static_lint(&run);
    assert_eq!(scan.counts, LintCounts { high: 2, medium: 0, low: 0, parse_errors: 1 });
    assert_eq!(scan.finding_count, 2);
    assert_eq!(scan.exit_code, 101);
    assert_eq!(scan.scan_errors, 2);
    assert!(scan.tool_available);
}

#[test]
fn lint_missing_scanner() {
    let scan = static_lint(&ToolRun::Unavailable);
    assert_eq!(scan.exit_code, -1);
    assert_eq!(scan.scan_errors, 1);
    assert_eq!(scan.finding_count, 0);
    assert!(!scan.tool_available);
}

#[test]
fn lint_lines_are_trimmed_of_unicode_white_space() {
    let out = format!("\t{WARNING_UNWRAP}\u{a0}\n\u{2003}\u{3000}\n  {{half");
    assert_eq!(parse_clippy_messages(&out), LintCounts { high: 1, medium: 0, low: 0, parse_errors: 1 });
}
