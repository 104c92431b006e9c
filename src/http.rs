//! The concurrent HTTP load test: the target URL, the requests each worker
//! sends, the responses it reads, and the merge of the workers' results.

use crate::json::{as_u64, get_member, json_of_bytes, member, parse_json, Json};
use crate::partition::{lemma_partition_contiguous, partition, range_view, work_ranges, WorkRange};
use crate::text::{
    decimal, has_prefix, last_index_of, lemma_split_nonempty, push_decimal, split_on, split_spec,
    text_rsplit_once, text_strip_prefix,
};
use vstd::arithmetic::div_mod::{lemma_add_mod_noop, lemma_small_mod};
use vstd::prelude::*;
use vstd::slice::slice_subrange;

verus! {

pub open spec fn is_digit(c: char) -> bool {
    '0' <= c && c <= '9'
}

/// The value of a run of decimal digits.
pub open spec fn digits_value(s: Seq<char>) -> nat
    decreases s.len(),
{
    if s.len() == 0 {
        0
    } else {
        digits_value(s.drop_last()) * 10 + ((s.last() as u32) - ('0' as u32)) as nat
    }
}

/// The digits of a port: the text without one leading `+`.
pub open spec fn port_digits(s: Seq<char>) -> Seq<char> {
    if s.len() > 0 && s[0] == '+' {
        s.drop_first()
    } else {
        s
    }
}

/// A port number: an optional `+` and at least one decimal digit, at most 65535.
pub open spec fn port_number(s: Seq<char>) -> Option<u16> {
    let d = port_digits(s);
    if d.len() > 0 && (forall|i: int| 0 <= i < d.len() ==> is_digit(#[trigger] d[i]))
        && digits_value(d) <= 65535 {
        Some(digits_value(d) as u16)
    } else {
        None
    }
}

/// Host and port of `http://host[:port][/...]`; the port defaults to 80.
pub open spec fn base_url_parts(url: Seq<char>) -> Option<(Seq<char>, u16)> {
    if !has_prefix(url, "http://"@) {
        None
    } else {
        let host_port = split_spec(url.subrange("http://"@.len() as int, url.len() as int), '/')[0];
        match last_index_of(host_port, ':') {
            Some(i) => match port_number(host_port.subrange(i + 1, host_port.len() as int)) {
                Some(p) => Some((host_port.subrange(0, i), p)),
                None => None,
            },
            None => Some((host_port, 80u16)),
        }
    }
}

/// Reads a port number.
pub fn parse_port(s: &str) -> (r: Option<u16>)
    ensures
        r == port_number(s@),
{
    let n = s.unicode_len();
    let mut i: usize = 0;
    if n > 0 && s.get_char(0) == '+' {
        i = 1;
    }
    let start = i;
    let ghost d = s@.subrange(start as int, n as int);
    assert(d =~= port_digits(s@));
    if i >= n {
        return None;
    }
    let mut value: u32 = 0;
    while i < n
        invariant
            n == s@.len(),
            start <= i <= n,
            d == s@.subrange(start as int, n as int),
            d == port_digits(s@),
            d.len() > 0,
            forall|j: int| 0 <= j < i - start ==> is_digit(#[trigger] d[j]),
            value as nat == if digits_value(d.subrange(0, i - start)) < 65536 {
                digits_value(d.subrange(0, i - start))
            } else {
                65536
            },
        decreases n - i,
    {
        let c = s.get_char(i);
        if !('0' <= c && c <= '9') {
            assert(!is_digit(d[i - start]));
            return None;
        }
        let digit: u32 = (c as u32) - ('0' as u32);
        assert(d.subrange(0, i + 1 - start).drop_last() =~= d.subrange(0, i - start));
        value = if value >= 6554 {
            65536
        } else {
            let v = value * 10 + digit;
            if v > 65536 {
                65536
            } else {
                v
            }
        };
        i = i + 1;
    }
    assert(d.subrange(0, n - start) =~= d);
    if value > 65535 {
        None
    } else {
        Some(value as u16)
    }
}

/// Splits a base URL of the form `http://host[:port][/...]` into host and
/// port (80 by default); `None` for another scheme or a bad port.
pub fn parse_base_url(base_url: &str) -> (r: Option<(String, u16)>)
    ensures
        match base_url_parts(base_url@) {
            Some((h, p)) => r matches Some((rh, rp)) && rh@ == h && rp == p,
            None => r is None,
        },
{
    let rest = match text_strip_prefix(base_url, "http://") {
        Some(t) => t,
        None => {
            return None;
        },
    };
    let pieces = split_on(rest, '/');
    proof {
        lemma_split_nonempty(rest@, '/');
    }
    let host_port: &str = pieces[0];
    match text_rsplit_once(host_port, ':') {
        Some((host, port)) => match parse_port(port) {
            Some(p) => Some((host.to_owned(), p)),
            None => None,
        },
        None => Some((host_port.to_owned(), 80)),
    }
}

/// The request for item `item`: `GET /item/{item}` over HTTP/1.1, asking the
/// server to close the connection after the response.
pub open spec fn request_spec(host: Seq<char>, item: nat) -> Seq<char> {
    "GET /item/"@ + decimal(item) + " HTTP/1.1\r\nHost: "@ + host + "\r\nConnection: close\r\n\r\n"@
}

/// Writes the request for item `item` to `host`.
pub fn request_text(host: &str, item: usize) -> (r: String)
    ensures
        r@ == request_spec(host@, item as nat),
{
    let mut s = String::from_str("GET /item/");
    push_decimal(&mut s, item as u64);
    s.append(" HTTP/1.1\r\nHost: ");
    s.append(host);
    s.append("\r\nConnection: close\r\n\r\n");
    s
}

/// Why one request produced no value.
#[derive(Clone, Copy, Debug, PartialEq, Eq, Structural)]
pub enum FetchError {
    /// Connecting, writing or reading failed.
    Transport,
    /// The response has no blank line between headers and body.
    BodyMissing,
    /// The body is not a JSON document.
    InvalidBody,
    /// The body has no unsigned integer member `value`.
    MissingValue,
}

/// A CR LF CR LF sequence starts at `i`.
pub open spec fn blank_line_at(raw: Seq<u8>, i: int) -> bool {
    0 <= i && i + 4 <= raw.len() && raw[i] == 13 && raw[i + 1] == 10 && raw[i + 2] == 13 && raw[i
        + 3] == 10
}

/// The first CR LF CR LF at or after `i`.
pub open spec fn first_blank_line_from(raw: Seq<u8>, i: nat) -> Option<nat>
    decreases raw.len() - i,
{
    if i + 4 > raw.len() {
        None
    } else if blank_line_at(raw, i as int) {
        Some(i)
    } else {
        first_blank_line_from(raw, i + 1)
    }
}

/// The item value of a parsed body: its unsigned integer member `value`.
pub open spec fn body_value(payload: Option<Json>) -> Result<u64, FetchError> {
    match payload {
        None => Err(FetchError::InvalidBody),
        Some(p) => match as_u64(member(p, "value"@)) {
            Some(v) => Ok(v),
            None => Err(FetchError::MissingValue),
        },
    }
}

/// The item value in a raw response: the body after the first blank line,
/// parsed as JSON.
pub open spec fn response_value(raw: Seq<u8>) -> Result<u64, FetchError> {
    match first_blank_line_from(raw, 0) {
        None => Err(FetchError::BodyMissing),
        Some(i) => body_value(json_of_bytes(raw.subrange(i + 4int, raw.len() as int))),
    }
}

/// Reads the item value from a parsed body.
pub fn value_of_body(payload: &Option<Json>) -> (r: Result<u64, FetchError>)
    ensures
        r == body_value(*payload),
{
    match payload {
        None => Err(FetchError::InvalidBody),
        Some(p) => match crate::json::u64_of(get_member(p, "value")) {
            Some(v) => Ok(v),
            None => Err(FetchError::MissingValue),
        },
    }
}

/// Reads the item value from a complete raw response.
pub fn value_from_response(raw: &[u8]) -> (r: Result<u64, FetchError>)
    ensures
        r == response_value(raw@),
{
    let n = raw.len();
    let mut i: usize = 0;
    while n >= 4 && i <= n - 4
        invariant
            n == raw@.len(),
            i <= n,
            first_blank_line_from(raw@, 0) == first_blank_line_from(raw@, i as nat),
        decreases n - i,
    {
        if raw[i] == 13 && raw[i + 1] == 10 && raw[i + 2] == 13 && raw[i + 3] == 10 {
            let body = slice_subrange(raw, i + 4, n);
            let parsed = parse_json(body);
            return value_of_body(&parsed);
        }
        i = i + 1;
    }
    Err(FetchError::BodyMissing)
}

/// `a + b` modulo 2^64.
pub open spec fn add_wrapping(a: u64, b: u64) -> u64 {
    ((a as int + b as int) % 0x1_0000_0000_0000_0000int) as u64
}

fn wrapping_sum(a: u64, b: u64) -> (r: u64)
    ensures
        r == add_wrapping(a, b),
{
    if b <= u64::MAX - a {
        a + b
    } else {
        b - (u64::MAX - a) - 1
    }
}

/// What one worker observed over its range.
#[derive(Clone, Copy, Debug, PartialEq, Eq, Structural)]
pub struct WorkerResult {
    /// Requests that returned a value.
    pub completed: usize,
    /// The sum of the returned values, modulo 2^64.
    pub checksum: u64,
    /// Requests that failed.
    pub errors: usize,
}

impl WorkerResult {
    /// A worker that has sent nothing yet.
    pub fn new() -> (r: WorkerResult)
        ensures
            r == (WorkerResult { completed: 0, checksum: 0, errors: 0 }),
    {
        WorkerResult { completed: 0, checksum: 0, errors: 0 }
    }

    /// Records the outcome of one request: a value is one completion added to
    /// the checksum, a failure one error.
    pub fn record(&mut self, outcome: &Result<u64, FetchError>)
        requires
            old(self).completed + old(self).errors < usize::MAX,
        ensures
            match *outcome {
                Ok(v) => *final(self) == (WorkerResult {
                    completed: (old(self).completed + 1) as usize,
                    checksum: add_wrapping(old(self).checksum, v),
                    errors: old(self).errors,
                }),
                Err(_) => *final(self) == (WorkerResult {
                    errors: (old(self).errors + 1) as usize,
                    ..*old(self)
                }),
            },
    {
        match outcome {
            Ok(v) => {
                self.completed = self.completed + 1;
                self.checksum = wrapping_sum(self.checksum, *v);
            },
            Err(_) => {
                self.errors = self.errors + 1;
            },
        }
    }
}

/// The item that request `request_index` asks for: items `0..rows` in turn
/// (a single item where `rows` is 0).
pub fn item_for(request_index: usize, rows: usize) -> (r: usize)
    ensures
        r == request_index % (if rows == 0 {
            1
        } else {
            rows
        }),
{
    request_index % if rows == 0 {
        1
    } else {
        rows
    }
}

/// The merged result of the load test.
#[derive(Clone, Copy, Debug, PartialEq, Eq, Structural)]
pub struct LoadTotals {
    pub completed: usize,
    pub checksum: u64,
    pub errors: usize,
}

/// Completions over the workers' results (`None`: a worker that could not be joined).
pub open spec fn total_completed(rs: Seq<Option<WorkerResult>>) -> nat
    decreases rs.len(),
{
    if rs.len() == 0 {
        0
    } else {
        total_completed(rs.drop_last()) + match rs.last() {
            Some(w) => w.completed as nat,
            None => 0,
        }
    }
}

/// Errors over the workers' results; a worker that could not be joined is one error.
pub open spec fn total_errors(rs: Seq<Option<WorkerResult>>) -> nat
    decreases rs.len(),
{
    if rs.len() == 0 {
        0
    } else {
        total_errors(rs.drop_last()) + match rs.last() {
            Some(w) => w.errors as nat,
            None => 1,
        }
    }
}

/// The checksums of the workers' results added modulo 2^64.
pub open spec fn total_checksum(rs: Seq<Option<WorkerResult>>) -> u64
    decreases rs.len(),
{
    if rs.len() == 0 {
        0
    } else {
        add_wrapping(
            total_checksum(rs.drop_last()),
            match rs.last() {
                Some(w) => w.checksum,
                None => 0,
            },
        )
    }
}

proof fn lemma_totals_prefix(rs: Seq<Option<WorkerResult>>, i: int)
    requires
        0 <= i <= rs.len(),
    ensures
        total_completed(rs.subrange(0, i)) + total_errors(rs.subrange(0, i)) <= total_completed(rs)
            + total_errors(rs),
    decreases rs.len(),
{
    if i < rs.len() {
        lemma_totals_prefix(rs.drop_last(), i);
        assert(rs.drop_last().subrange(0, i) =~= rs.subrange(0, i));
    } else {
        assert(rs.subrange(0, i) =~= rs);
    }
}

/// The workers' checksums added as integers.
pub open spec fn checksum_sum(rs: Seq<Option<WorkerResult>>) -> int
    decreases rs.len(),
{
    if rs.len() == 0 {
        0
    } else {
        checksum_sum(rs.drop_last()) + match rs.last() {
            Some(w) => w.checksum as int,
            None => 0,
        }
    }
}

proof fn lemma_checksum_is_sum_mod(rs: Seq<Option<WorkerResult>>)
    ensures
        total_checksum(rs) as int == checksum_sum(rs) % 0x1_0000_0000_0000_0000int,
    decreases rs.len(),
{
    if rs.len() > 0 {
        lemma_checksum_is_sum_mod(rs.drop_last());
        let c: int = match rs.last() {
            Some(w) => w.checksum as int,
            None => 0,
        };
        let m = 0x1_0000_0000_0000_0000int;
        lemma_small_mod(c as nat, m as nat);
        lemma_add_mod_noop(checksum_sum(rs.drop_last()), c, m);
    }
}

proof fn lemma_totals_concat(a: Seq<Option<WorkerResult>>, b: Seq<Option<WorkerResult>>)
    ensures
        total_completed(a + b) == total_completed(a) + total_completed(b),
        total_errors(a + b) == total_errors(a) + total_errors(b),
        checksum_sum(a + b) == checksum_sum(a) + checksum_sum(b),
    decreases b.len(),
{
    if b.len() == 0 {
        assert(a + b =~= a);
    } else {
        lemma_totals_concat(a, b.drop_last());
        assert((a + b).drop_last() =~= a + b.drop_last());
        assert((a + b).last() == b.last());
    }
}

/// The merged totals do not depend on the order in which the workers'
/// results arrive: merging two groups of results gives the same totals
/// either way round.
pub proof fn lemma_merge_order_free(a: Seq<Option<WorkerResult>>, b: Seq<Option<WorkerResult>>)
    ensures
        total_completed(a + b) == total_completed(b + a),
        total_errors(a + b) == total_errors(b + a),
        total_checksum(a + b) == total_checksum(b + a),
{
    lemma_totals_concat(a, b);
    lemma_totals_concat(b, a);
    lemma_checksum_is_sum_mod(a + b);
    lemma_checksum_is_sum_mod(b + a);
}

/// The worker was joined and saw one outcome per request of `range`.
pub open spec fn accounts_for(r: Option<WorkerResult>, range: (int, int)) -> bool {
    match r {
        Some(w) => w.completed + w.errors == range.1 - range.0,
        None => false,
    }
}

/// Where each worker of the partition accounts for every request of its range
/// (one completion or one error each), the merged totals account for the whole
/// request budget.
pub proof fn lemma_merge_accounts_for_budget(
    requests: nat,
    workers: nat,
    results: Seq<Option<WorkerResult>>,
)
    requires
        results.len() == work_ranges(requests, workers).len(),
        forall|k: int|
            0 <= k < results.len() ==> accounts_for(
                #[trigger] results[k],
                work_ranges(requests, workers)[k],
            ),
    ensures
        total_completed(results) + total_errors(results) == requests,
{
    let rs = work_ranges(requests, workers);
    lemma_partition_contiguous(requests, workers);
    lemma_prefix_outcomes(rs, results, results.len() as int);
    assert(results.subrange(0, results.len() as int) =~= results);
    if results.len() > 0 {
        assert(rs.last() == rs[rs.len() - 1]);
    }
}

proof fn lemma_prefix_outcomes(rs: Seq<(int, int)>, results: Seq<Option<WorkerResult>>, k: int)
    requires
        0 <= k <= results.len(),
        results.len() == rs.len(),
        rs.len() > 0 ==> rs[0].0 == 0,
        forall|j: int| 0 < j < rs.len() ==> #[trigger] rs[j].0 == rs[j - 1].1,
        forall|j: int| 0 <= j < results.len() ==> accounts_for(#[trigger] results[j], rs[j]),
    ensures
        total_completed(results.subrange(0, k)) + total_errors(results.subrange(0, k)) == if k
            == 0 {
            0
        } else {
            rs[k - 1].1
        },
    decreases k,
{
    if k > 0 {
        lemma_prefix_outcomes(rs, results, k - 1);
        assert(results.subrange(0, k).drop_last() =~= results.subrange(0, k - 1));
        assert(results.subrange(0, k).last() == results[k - 1]);
        assert(accounts_for(results[k - 1], rs[k - 1]));
    }
}

/// Folds the workers' results into the totals of the load test.
pub fn merge_results(results: &Vec<Option<WorkerResult>>) -> (r: LoadTotals)
    requires
        total_completed(results@) + total_errors(results@) <= usize::MAX,
    ensures
        r.completed == total_completed(results@),
        r.errors == total_errors(results@),
        r.checksum == total_checksum(results@),
{
    let mut totals = LoadTotals { completed: 0, checksum: 0, errors: 0 };
    let mut i: usize = 0;
    while i < results.len()
        invariant
            i <= results@.len(),
            total_completed(results@) + total_errors(results@) <= usize::MAX,
            totals.completed == total_completed(results@.subrange(0, i as int)),
            totals.errors == total_errors(results@.subrange(0, i as int)),
            totals.checksum == total_checksum(results@.subrange(0, i as int)),
        decreases results@.len() - i,
    {
        assert(results@.subrange(0, i + 1).drop_last() =~= results@.subrange(0, i as int));
        proof {
            lemma_totals_prefix(results@, i + 1);
        }
        match &results[i] {
            Some(w) => {
                totals.completed = totals.completed + w.completed;
                totals.errors = totals.errors + w.errors;
                totals.checksum = wrapping_sum(totals.checksum, w.checksum);
            },
            None => {
                totals.errors = totals.errors + 1;
                totals.checksum = wrapping_sum(totals.checksum, 0);
            },
        }
        i = i + 1;
    }
    assert(results@.subrange(0, i as int) =~= results@);
    totals
}

/// The work of a load test against a reachable target.
pub struct LoadPlan {
    pub host: String,
    pub port: u16,
    /// One range per worker to start.
    pub ranges: Vec<WorkRange>,
}

/// Plans a load test of `requests` requests over `concurrency` workers. A base
/// URL that cannot be read gives, instead of a plan, the final totals: one
/// error and nothing else.
pub fn plan_load(base_url: &str, requests: usize, concurrency: usize) -> (r: Result<
    LoadPlan,
    LoadTotals,
>)
    ensures
        match base_url_parts(base_url@) {
            Some((h, p)) => r matches Ok(plan) && plan.host@ == h && plan.port == p
                && plan.ranges@.map_values(|x: WorkRange| range_view(x)) == work_ranges(
                requests as nat,
                concurrency as nat,
            ),
            None => r == Err::<LoadPlan, LoadTotals>(
                LoadTotals { completed: 0, checksum: 0, errors: 1 },
            ),
        },
{
    match parse_base_url(base_url) {
        Some((host, port)) => Ok(LoadPlan { host, port, ranges: partition(requests, concurrency) }),
        None => Err(LoadTotals { completed: 0, checksum: 0, errors: 1 }),
    }
}

} // verus!
