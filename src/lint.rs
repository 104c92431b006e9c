//! The lint scanner's diagnostic stream: one JSON object per line, reduced to
//! finding counts per severity.

use crate::json::{as_text, get_member, json_of_bytes, member, parse_json, Json};
use crate::normalize::ToolRun;
use crate::text::{
    contains_text, has_prefix, split_on, split_spec, text_contains, text_starts_with, trim_text,
    trimmed,
};
use vstd::prelude::*;
use vstd::utf8::encode_utf8;

verus! {

/// The severity bucket of a lint finding.
#[derive(Clone, Copy, Debug, PartialEq, Eq, Structural)]
pub enum Severity {
    High,
    Medium,
    Low,
}

/// Rule codes that name panicking or unchecked operations.
pub open spec fn is_high_risk(code: Seq<char>) -> bool {
    contains_text(code, "unwrap_used"@) || contains_text(code, "expect_used"@) || contains_text(
        code,
        "panic"@,
    ) || contains_text(code, "todo"@) || contains_text(code, "unimplemented"@) || contains_text(
        code,
        "indexing_slicing"@,
    )
}

/// Rule codes of the suspicious, correctness, performance and complexity groups.
pub open spec fn is_medium_risk(code: Seq<char>) -> bool {
    contains_text(code, "suspicious"@) || contains_text(code, "correctness"@) || contains_text(
        code,
        "perf"@,
    ) || contains_text(code, "complexity"@)
}

/// The bucket of a rule code: high before medium, low otherwise.
pub open spec fn severity_of(code: Seq<char>) -> Severity {
    if is_high_risk(code) {
        Severity::High
    } else if is_medium_risk(code) {
        Severity::Medium
    } else {
        Severity::Low
    }
}

pub open spec fn severity_label(s: Severity) -> Seq<char> {
    match s {
        Severity::High => "high"@,
        Severity::Medium => "medium"@,
        Severity::Low => "low"@,
    }
}

/// Buckets a lint rule code by substring patterns.
pub fn severity(code: &str) -> (r: Severity)
    ensures
        r == severity_of(code@),
{
    if text_contains(code, "unwrap_used") || text_contains(code, "expect_used") || text_contains(
        code,
        "panic",
    ) || text_contains(code, "todo") || text_contains(code, "unimplemented") || text_contains(
        code,
        "indexing_slicing",
    ) {
        Severity::High
    } else if text_contains(code, "suspicious") || text_contains(code, "correctness")
        || text_contains(code, "perf") || text_contains(code, "complexity") {
        Severity::Medium
    } else {
        Severity::Low
    }
}

/// The severity of a lint rule code as a label: `"high"`, `"medium"` or `"low"`.
pub fn classify_clippy_finding(code: &str) -> (r: &'static str)
    ensures
        r@ == severity_label(severity_of(code@)),
{
    match severity(code) {
        Severity::High => "high",
        Severity::Medium => "medium",
        Severity::Low => "low",
    }
}

/// What one line of the stream contributes.
#[derive(Clone, Copy, Debug, PartialEq, Eq, Structural)]
pub enum LineEffect {
    /// Noise, another kind of record, or a diagnostic that is not counted.
    Skip,
    /// A line that should have been a record but could not be read.
    ParseError,
    /// A counted warning of the scanner.
    Finding(Severity),
}

/// The rule code of a diagnostic message, empty where it has none.
pub open spec fn message_code(message: Json) -> Seq<char> {
    match member(message, "code"@) {
        Some(c) => match as_text(member(c, "code"@)) {
            Some(t) => t,
            None => Seq::empty(),
        },
        None => Seq::empty(),
    }
}

/// The effect of a parsed record: a `compiler-message` whose message is a
/// warning with no rule code or a `clippy::` one is a finding; such a record
/// without its message is a parse error; anything else is skipped.
pub open spec fn record_effect(payload: Json) -> LineEffect {
    if as_text(member(payload, "reason"@)) != Some("compiler-message"@) {
        LineEffect::Skip
    } else {
        match member(payload, "message"@) {
            None => LineEffect::ParseError,
            Some(message) => {
                if as_text(member(message, "level"@)) != Some("warning"@) {
                    LineEffect::Skip
                } else {
                    let code = message_code(message);
                    if code.len() > 0 && !has_prefix(code, "clippy::"@) {
                        LineEffect::Skip
                    } else {
                        LineEffect::Finding(severity_of(code))
                    }
                }
            },
        }
    }
}

/// The effect of one line: blank lines are skipped; a line that is not JSON
/// is a parse error when it starts with `{` and noise otherwise.
pub open spec fn line_effect(line: Seq<char>) -> LineEffect {
    let t = trimmed(line);
    if t.len() == 0 {
        LineEffect::Skip
    } else {
        match json_of_bytes(encode_utf8(t)) {
            None => if t[0] == '{' {
                LineEffect::ParseError
            } else {
                LineEffect::Skip
            },
            Some(payload) => record_effect(payload),
        }
    }
}

/// The number of `lines` whose effect is `e`.
pub open spec fn effect_count(lines: Seq<Seq<char>>, e: LineEffect) -> nat
    decreases lines.len(),
{
    if lines.len() == 0 {
        0
    } else {
        effect_count(lines.drop_last(), e) + if line_effect(lines.last()) == e {
            1nat
        } else {
            0nat
        }
    }
}

/// The lines of a stream, split at `\n` (a trailing `\r` is white space and
/// goes with the trimming).
pub open spec fn stream_lines(output: Seq<char>) -> Seq<Seq<char>> {
    split_spec(output, '\n')
}

/// Findings per severity, and parse errors, of a diagnostic stream.
#[derive(Clone, Copy, Debug, PartialEq, Eq, Structural)]
pub struct LintCounts {
    pub high: usize,
    pub medium: usize,
    pub low: usize,
    pub parse_errors: usize,
}

/// Whether `v` is the string `text`.
fn is_text(v: Option<&Json>, text: &str) -> (r: bool)
    ensures
        r == (as_text(
            match v {
                Some(x) => Some(*x),
                None => None,
            },
        ) == Some(text@)),
{
    match v {
        Some(Json::Str(s)) => {
            let wanted: String = text.to_owned();
            *s == wanted
        },
        _ => false,
    }
}

/// The effect of one parsed record of the stream.
pub fn classify_record(payload: &Json) -> (r: LineEffect)
    ensures
        r == record_effect(*payload),
{
    if !is_text(get_member(payload, "reason"), "compiler-message") {
        return LineEffect::Skip;
    }
    let message = match get_member(payload, "message") {
        Some(m) => m,
        None => {
            return LineEffect::ParseError;
        },
    };
    if !is_text(get_member(message, "level"), "warning") {
        return LineEffect::Skip;
    }
    let code: &str = match get_member(message, "code") {
        Some(c) => match get_member(c, "code") {
            Some(Json::Str(t)) => t.as_str(),
            _ => "",
        },
        None => "",
    };
    proof {
        reveal_strlit("");
        assert(""@ =~= Seq::<char>::empty());
    }
    assert(code@ == message_code(*message));
    if !code.is_empty() && !text_starts_with(code, "clippy::") {
        return LineEffect::Skip;
    }
    LineEffect::Finding(severity(code))
}

/// The effect of one line of the stream.
pub fn classify_line(line: &str) -> (r: LineEffect)
    ensures
        r == line_effect(line@),
{
    let t = trim_text(line);
    if t.is_empty() {
        return LineEffect::Skip;
    }
    match parse_json(t.as_bytes()) {
        Some(payload) => classify_record(&payload),
        None => {
            if t.get_char(0) == '{' {
                LineEffect::ParseError
            } else {
                LineEffect::Skip
            }
        },
    }
}

/// Counts the scanner's warnings by severity, and the unreadable records, in a
/// JSON-per-line diagnostic stream.
pub fn parse_clippy_messages(output: &str) -> (r: LintCounts)
    ensures
        stream_counts(output@, r),
        r.high + r.medium + r.low + r.parse_errors <= usize::MAX,
{
    let lines = split_on(output, '\n');
    let ghost all = stream_lines(output@);
    let mut counts = LintCounts { high: 0, medium: 0, low: 0, parse_errors: 0 };
    let mut i: usize = 0;
    while i < lines.len()
        invariant
            lines@.len() == all.len(),
            all == stream_lines(output@),
            forall|k: int| 0 <= k < lines@.len() ==> (#[trigger] lines@[k])@ == all[k],
            i <= lines@.len(),
            counts.high + counts.medium + counts.low + counts.parse_errors <= i,
            counts.high == effect_count(all.subrange(0, i as int), LineEffect::Finding(Severity::High)),
            counts.medium == effect_count(
                all.subrange(0, i as int),
                LineEffect::Finding(Severity::Medium),
            ),
            counts.low == effect_count(all.subrange(0, i as int), LineEffect::Finding(Severity::Low)),
            counts.parse_errors == effect_count(all.subrange(0, i as int), LineEffect::ParseError),
        decreases lines@.len() - i,
    {
        let effect = classify_line(lines[i]);
        assert(all.subrange(0, i + 1).drop_last() =~= all.subrange(0, i as int));
        assert(all.subrange(0, i + 1).last() == all[i as int]);
        match effect {
            LineEffect::Finding(Severity::High) => counts.high = counts.high + 1,
            LineEffect::Finding(Severity::Medium) => counts.medium = counts.medium + 1,
            LineEffect::Finding(Severity::Low) => counts.low = counts.low + 1,
            LineEffect::ParseError => counts.parse_errors = counts.parse_errors + 1,
            LineEffect::Skip => {},
        }
        i = i + 1;
    }
    assert(all.subrange(0, i as int) =~= all);
    counts
}

/// The lint scorecard of one scanner run.
#[derive(Clone, Copy, Debug, PartialEq, Eq, Structural)]
pub struct LintScan {
    pub counts: LintCounts,
    /// High, medium and low findings together.
    pub finding_count: usize,
    /// The scanner's exit code, or -1 where it could not be run.
    pub exit_code: i64,
    pub tool_available: bool,
    /// Unreadable records plus one for a non-zero exit (or for a missing
    /// scanner), saturating at `u64::MAX`.
    pub scan_errors: u64,
}

/// What the scanner printed, standard output then standard error, one line apart.
pub open spec fn joined_output(stdout: Seq<char>, stderr: Seq<char>) -> Seq<char> {
    stdout + seq!['\n'] + stderr
}

/// The counts of a stream, as `parse_clippy_messages` returns them.
pub open spec fn stream_counts(output: Seq<char>, r: LintCounts) -> bool {
    &&& r.high == effect_count(stream_lines(output), LineEffect::Finding(Severity::High))
    &&& r.medium == effect_count(stream_lines(output), LineEffect::Finding(Severity::Medium))
    &&& r.low == effect_count(stream_lines(output), LineEffect::Finding(Severity::Low))
    &&& r.parse_errors == effect_count(stream_lines(output), LineEffect::ParseError)
}

/// Reduces one scanner run to its scorecard. A missing scanner is one scan
/// error, exit code -1 and no findings.
pub fn static_lint(run: &ToolRun) -> (r: LintScan)
    ensures
        match *run {
            ToolRun::Unavailable => r == LintScan {
                counts: LintCounts { high: 0, medium: 0, low: 0, parse_errors: 0 },
                finding_count: 0,
                exit_code: -1i64,
                tool_available: false,
                scan_errors: 1,
            },
            ToolRun::Finished { exit_code, stdout, stderr } => {
                &&& stream_counts(joined_output(stdout@, stderr@), r.counts)
                &&& r.finding_count == r.counts.high + r.counts.medium + r.counts.low
                &&& r.exit_code == exit_code as i64
                &&& r.tool_available
                &&& r.scan_errors == if r.counts.parse_errors + (if exit_code != 0 {
                    1int
                } else {
                    0int
                }) > u64::MAX {
                    u64::MAX as int
                } else {
                    r.counts.parse_errors + (if exit_code != 0 {
                        1int
                    } else {
                        0int
                    })
                }
            },
        },
{
    match run {
        ToolRun::Unavailable => LintScan {
            counts: LintCounts { high: 0, medium: 0, low: 0, parse_errors: 0 },
            finding_count: 0,
            exit_code: -1,
            tool_available: false,
            scan_errors: 1,
        },
        ToolRun::Finished { exit_code, stdout, stderr } => {
            let mut joined: String = stdout.clone();
            joined.append("\n");
            joined.append(stderr.as_str());
            proof {
                reveal_strlit("\n");
            }
            assert(joined@ =~= joined_output(stdout@, stderr@));
            let counts = parse_clippy_messages(joined.as_str());
            let exit_errors: u64 = if *exit_code != 0 { 1 } else { 0 };
            LintScan {
                counts,
                finding_count: counts.high + counts.medium + counts.low,
                exit_code: *exit_code as i64,
                tool_available: true,
                scan_errors: (counts.parse_errors as u64).saturating_add(exit_errors),
            }
        },
    }
}

} // verus!
