use rust_benchmarks::http::{
    item_for, merge_results, parse_base_url, plan_load, request_text, value_from_response,
    FetchError, LoadTotals, WorkerResult,
};
use rust_benchmarks::partition::{partition, WorkRange};

fn ranges(v: &[(usize, usize)]) -> Vec<WorkRange> {
    v.iter().map(|&(start, end)| WorkRange { start, end }).collect()
}

#[test]
fn partition_splits_evenly_with_short_tail() {
    assert_eq!(partition(10, 4), ranges(&[(0, 3), (3, 6), (6, 9), (9, 10)]));
}

#[test]
fn partition_drops_empty_ranges() {
    // ceil(10 / 6) = 2, so only five workers get requests
    assert_eq!(partition(10, 6), ranges(&[(0, 2), (2, 4), (4, 6), (6, 8), (8, 10)]));
    assert_eq!(partition(3, 8), ranges(&[(0, 1), (1, 2), (2, 3)]));
}

#[test]
fn partition_of_nothing_is_empty() {
    assert!(partition(0, 3).is_empty());
    assert!(partition(0, 0).is_empty());
}

#[test]
fn partition_clamps_workers_to_one() {
    assert_eq!(partition(5, 0), ranges(&[(0, 5)]));
}

#[test]
fn partition_covers_each_index_once() {
    for requests in 0..40usize {
        for workers in 1..12usize {
            let rs = partition(requests, workers);
            let mut next = 0;
            for r in &rs {
                assert_eq!(r.start, next);
                assert!(r.start < r.end);
                next = r.end;
            }
            assert_eq!(next, requests);
            assert!(rs.len() <= workers);
        }
    }
}

#[test]
fn partition_of_huge_budget_does_not_overflow() {
    let rs = partition(usize::MAX, 2);
    assert_eq!(rs.len(), 2);
    assert_eq!(rs[1].end, usize::MAX);
}

#[test]
fn base_url_with_port() {
    assert_eq!(parse_base_url("http://127.0.0.1:8000"), Some(("127.0.0.1".to_string(), 8000)));
}

#[test]
fn base_url_default_port_and_path() {
    assert_eq!(parse_base_url("http://example.org/api/v1"), Some(("example.org".to_string(), 80)));
    assert_eq!(parse_base_url("http://h:8080/x:9"), Some(("h".to_string(), 8080)));
}

#[test]
fn base_url_rejects_other_schemes_and_bad_ports() {
    assert_eq!(parse_base_url("https://example.org"), None);
    assert_eq!(parse_base_url("127.0.0.1:8000"), None);
    assert_eq!(parse_base_url("http://h:99999"), None);
    assert_eq!(parse_base_url("http://h:"), None);
    assert_eq!(parse_base_url("http://h:8o"), None);
    assert_eq!(parse_base_url("http://h:-1"), None);
}

#[test]
fn base_url_port_edge_values() {
    assert_eq!(parse_base_url("http://h:+81"), Some(("h".to_string(), 81)));
    assert_eq!(parse_base_url("http://h:65535"), Some(("h".to_string(), 65535)));
    assert_eq!(parse_base_url("http://h:00080"), Some(("h".to_string(), 80)));
    assert_eq!(parse_base_url("http://[::1]:9000"), Some(("[::1]".to_string(), 9000)));
}

#[test]
fn request_text_is_minimal_get() {
    assert_eq!(
        request_text("localhost", 1234),
        "GET /item/1234 HTTP/1.1\r\nHost: localhost\r\nConnection: close\r\n\r\n"
    );
    assert_eq!(
        request_text("h", 0),
        "GET /item/0 HTTP/1.1\r\nHost: h\r\nConnection: close\r\n\r\n"
    );
}

#[test]
fn response_value_read_from_body() {
    let raw = b"HTTP/1.1 200 OK\r\nContent-Type: application/json\r\n\r\n{\"value\": 17, \"id\": 3}";
    assert_eq!(value_from_response(raw), Ok(17));
}

#[test]
fn response_errors() {
    assert_eq!(value_from_response(b"HTTP/1.1 200 OK\r\n{\"value\":1}"), Err(FetchError::BodyMissing));
    assert_eq!(value_from_response(b""), Err(FetchError::BodyMissing));
    assert_eq!(value_from_response(b"HTTP/1.1 200 OK\r\n\r\nnot json"), Err(FetchError::InvalidBody));
    assert_eq!(value_from_response(b"HTTP/1.1 200 OK\r\n\r\n{\"other\":1}"), Err(FetchError::MissingValue));
    assert_eq!(value_from_response(b"HTTP/1.1 200 OK\r\n\r\n{\"value\":-1}"), Err(FetchError::MissingValue));
    assert_eq!(value_from_response(b"HTTP/1.1 200 OK\r\n\r\n{\"value\":\"1\"}"), Err(FetchError::MissingValue));
    assert_eq!(value_from_response(b"HTTP/1.1 200 OK\r\n\r\n[1]"), Err(FetchError::MissingValue));
}

#[test]
fn items_cycle_over_rows() {
    assert_eq!(item_for(5, 3), 2);
    assert_eq!(item_for(2, 3), 2);
    assert_eq!(item_for(7, 0), 0);
    assert_eq!(item_for(7, 100), 7);
}

#[test]
fn worker_records_outcomes() {
    let mut w = WorkerResult::new();
    w.record(&Ok(5));
    w.record(&Err(FetchError::Transport));
    w.record(&Ok(u64::MAX));
    assert_eq!(w, WorkerResult { completed: 2, checksum: 4, errors: 1 });
}

#[test]
fn merge_counts_failed_joins_as_errors() {
    let results = vec![
        Some(WorkerResult { completed: 3, checksum: 10, errors: 1 }),
        None,
        Some(WorkerResult { completed: 2, checksum: u64::MAX, errors: 0 }),
    ];
    assert_eq!(merge_results(&results), LoadTotals { completed: 5, checksum: 9, errors: 2 });
    assert_eq!(merge_results(&vec![]), LoadTotals { completed: 0, checksum: 0, errors: 0 });
}

#[test]
fn bad_base_url_is_one_error() {
    match plan_load("ftp://nowhere", 100, 4) {
        Err(totals) => assert_eq!(totals, LoadTotals { completed: 0, checksum: 0, errors: 1 }),
        Ok(_) => panic!("planned a load test against an unreadable URL"),
    }
}

#[test]
fn stub_server_load_merges_to_checksum() {
    let requests = 100;
    let rows = 100;
    let plan = match plan_load("http://127.0.0.1:8000", requests, 4) {
        Ok(plan) => plan,
        Err(_) => panic!("base URL should parse"),
    };
    assert_eq!(plan.host, "127.0.0.1");
    assert_eq!(plan.port, 8000);
    assert_eq!(plan.ranges.len(), 4);
    let mut results = Vec::new();
    for range in &plan.ranges {
        let mut worker = WorkerResult::new();
        for i in range.start..range.end {
            let id = item_for(i, rows);
            let response = format!("HTTP/1.1 200 OK\r\nConnection: close\r\n\r\n{{\"value\": {id}}}");
            worker.record(&value_from_response(response.as_bytes()));
        }
        results.push(Some(worker));
    }
    let totals = merge_results(&results);
    assert_eq!(totals.completed, 100);
    assert_eq!(totals.errors, 0);
    assert_eq!(totals.checksum, (0..100u64).sum::<u64>());
}
