//! Reducing the JSON documents of the dependency audit and the
//! dependency-freshness check to finding counts, whatever shape they take.

use crate::json::{array_len, as_u64, get_member, json_of_bytes, member, parse_json, Json};
use vstd::prelude::*;
use vstd::utf8::encode_utf8;

verus! {

/// How an external tool run ended.
#[derive(Debug)]
pub enum ToolRun {
    /// The tool could not be located or started; nothing was run.
    Unavailable,
    /// The tool ran and exited with `exit_code`.
    Finished { exit_code: i32, stdout: String, stderr: String },
}

/// The two tools that print one JSON document.
#[derive(Clone, Copy, Debug, PartialEq, Eq, Structural)]
pub enum DocumentTool {
    /// The dependency vulnerability audit.
    Audit,
    /// The dependency freshness check.
    Outdated,
}

/// What one document tool run reduces to.
#[derive(Clone, Copy, Debug, PartialEq, Eq, Structural)]
pub struct DocumentScan {
    /// Findings (audit) or outdated dependencies (freshness check).
    pub count: u64,
    /// The tool's exit code, or -1 where it could not be run.
    pub exit_code: i64,
    /// Scan errors: tool missing, output not JSON, non-zero exit.
    pub errors: u64,
}

/// The count of a section: its `count` or `found_count` integer, else the length
/// of its `list` or `items` array, else its own length where it is an array.
pub open spec fn section_count(section: Json) -> Option<u64> {
    if as_u64(member(section, "count"@)) is Some {
        as_u64(member(section, "count"@))
    } else if as_u64(member(section, "found_count"@)) is Some {
        as_u64(member(section, "found_count"@))
    } else if array_len(member(section, "list"@)) is Some {
        Some(array_len(member(section, "list"@))->0 as u64)
    } else if array_len(member(section, "items"@)) is Some {
        Some(array_len(member(section, "items"@))->0 as u64)
    } else if array_len(Some(section)) is Some {
        Some(array_len(Some(section))->0 as u64)
    } else {
        None
    }
}

/// The count of the member `key` of `payload`, where it is there and counts.
pub open spec fn keyed_count(payload: Json, key: Seq<char>) -> Option<u64> {
    match member(payload, key) {
        Some(section) => section_count(section),
        None => None,
    }
}

/// Findings in an audit report: the `vulnerabilities` section, else the
/// `advisories` section, else the report itself as a section, else 0.
pub open spec fn vulnerability_count(payload: Json) -> u64 {
    if keyed_count(payload, "vulnerabilities"@) is Some {
        keyed_count(payload, "vulnerabilities"@)->0
    } else if keyed_count(payload, "advisories"@) is Some {
        keyed_count(payload, "advisories"@)->0
    } else if section_count(payload) is Some {
        section_count(payload)->0
    } else {
        0
    }
}

/// The length of the array member `key` of `payload`, if it is one.
pub open spec fn keyed_array_len(payload: Json, key: Seq<char>) -> Option<u64> {
    match array_len(member(payload, key)) {
        Some(n) => Some(n as u64),
        None => None,
    }
}

/// `payload` is a non-empty object whose every member value is an object.
pub open spec fn is_object_of_objects(payload: Json) -> bool {
    match payload {
        Json::Object(m) => m@.len() > 0 && forall|i: int|
            0 <= i < m@.len() ==> (#[trigger] m@[i]).1 is Object,
        _ => false,
    }
}

/// The number of members of an object, 0 for anything else.
pub open spec fn member_count(payload: Json) -> nat {
    match payload {
        Json::Object(m) => m@.len(),
        _ => 0,
    }
}

/// Outdated dependencies in a freshness report: the first of the arrays
/// `outdated`, `dependencies`, `packages`, `results`; else the report as a
/// section; else, for an object of objects, its member count; else 0.
pub open spec fn outdated_count(payload: Json) -> u64 {
    if keyed_array_len(payload, "outdated"@) is Some {
        keyed_array_len(payload, "outdated"@)->0
    } else if keyed_array_len(payload, "dependencies"@) is Some {
        keyed_array_len(payload, "dependencies"@)->0
    } else if keyed_array_len(payload, "packages"@) is Some {
        keyed_array_len(payload, "packages"@)->0
    } else if keyed_array_len(payload, "results"@) is Some {
        keyed_array_len(payload, "results"@)->0
    } else if section_count(payload) is Some {
        section_count(payload)->0
    } else if is_object_of_objects(payload) {
        member_count(payload) as u64
    } else {
        0
    }
}

/// The count that `tool` reads from its parsed report.
pub open spec fn document_count(tool: DocumentTool, payload: Json) -> u64 {
    match tool {
        DocumentTool::Audit => vulnerability_count(payload),
        DocumentTool::Outdated => outdated_count(payload),
    }
}

/// The scan of a finished run, given the parse of its standard output.
pub open spec fn scan_of_parsed(tool: DocumentTool, exit_code: i32, parsed: Option<Json>) -> DocumentScan {
    DocumentScan {
        count: match parsed {
            Some(p) => document_count(tool, p),
            None => 0,
        },
        exit_code: exit_code as i64,
        errors: ((if parsed is None { 1int } else { 0int }) + (if exit_code != 0 { 1int } else { 0int })) as u64,
    }
}

/// The scan of a tool run: a missing tool is one error with exit code -1.
pub open spec fn document_scan(tool: DocumentTool, run: ToolRun) -> DocumentScan {
    match run {
        ToolRun::Unavailable => DocumentScan { count: 0, exit_code: -1i64, errors: 1 },
        ToolRun::Finished { exit_code, stdout, .. } => scan_of_parsed(
            tool,
            exit_code,
            json_of_bytes(encode_utf8(stdout@)),
        ),
    }
}

/// Reads the count of a report section; `None` where no rule applies.
pub fn count_from_section(section: &Json) -> (r: Option<u64>)
    ensures
        r == section_count(*section),
{
    if let Some(count) = crate::json::u64_of(get_member(section, "count")) {
        return Some(count);
    }
    if let Some(count) = crate::json::u64_of(get_member(section, "found_count")) {
        return Some(count);
    }
    if let Some(n) = crate::json::array_len_of(get_member(section, "list")) {
        return Some(n as u64);
    }
    if let Some(n) = crate::json::array_len_of(get_member(section, "items")) {
        return Some(n as u64);
    }
    if let Some(n) = crate::json::array_len_of(Some(section)) {
        return Some(n as u64);
    }
    None
}

fn keyed_section_count(payload: &Json, key: &str) -> (r: Option<u64>)
    ensures
        r == keyed_count(*payload, key@),
{
    match get_member(payload, key) {
        Some(section) => count_from_section(section),
        None => None,
    }
}

/// Counts the findings of a parsed audit report.
pub fn count_vulnerability_findings(payload: &Json) -> (r: u64)
    ensures
        r == vulnerability_count(*payload),
{
    if let Some(count) = keyed_section_count(payload, "vulnerabilities") {
        return count;
    }
    if let Some(count) = keyed_section_count(payload, "advisories") {
        return count;
    }
    match count_from_section(payload) {
        Some(count) => count,
        None => 0,
    }
}

fn keyed_array_length(payload: &Json, key: &str) -> (r: Option<u64>)
    ensures
        r == keyed_array_len(*payload, key@),
{
    match crate::json::array_len_of(get_member(payload, key)) {
        Some(n) => Some(n as u64),
        None => None,
    }
}

fn object_of_objects_size(payload: &Json) -> (r: Option<u64>)
    ensures
        match r {
            Some(n) => is_object_of_objects(*payload) && n == member_count(*payload) as u64,
            None => !is_object_of_objects(*payload),
        },
{
    match payload {
        Json::Object(members) => {
            if members.len() == 0 {
                return None;
            }
            let mut i: usize = 0;
            while i < members.len()
                invariant
                    i <= members@.len(),
                    *payload == Json::Object(*members),
                    forall|j: int| 0 <= j < i ==> (#[trigger] members@[j]).1 is Object,
                decreases members@.len() - i,
            {
                match &members[i].1 {
                    Json::Object(_) => {},
                    _ => {
                        return None;
                    },
                }
                i = i + 1;
            }
            Some(members.len() as u64)
        },
        _ => None,
    }
}

/// Counts the outdated dependencies of a parsed freshness report.
pub fn count_outdated_dependencies(payload: &Json) -> (r: u64)
    ensures
        r == outdated_count(*payload),
{
    if let Some(n) = keyed_array_length(payload, "outdated") {
        return n;
    }
    if let Some(n) = keyed_array_length(payload, "dependencies") {
        return n;
    }
    if let Some(n) = keyed_array_length(payload, "packages") {
        return n;
    }
    if let Some(n) = keyed_array_length(payload, "results") {
        return n;
    }
    if let Some(n) = count_from_section(payload) {
        return n;
    }
    match object_of_objects_size(payload) {
        Some(n) => n,
        None => 0,
    }
}

/// The scan of a finished run of `tool`, given the parse of its output:
/// an unparsable report counts nothing and one error, and a non-zero exit
/// code is one more error.
pub fn scan_from_parsed(tool: DocumentTool, exit_code: i32, parsed: &Option<Json>) -> (r: DocumentScan)
    ensures
        r == scan_of_parsed(tool, exit_code, *parsed),
{
    let count: u64 = match parsed {
        Some(p) => match tool {
            DocumentTool::Audit => count_vulnerability_findings(p),
            DocumentTool::Outdated => count_outdated_dependencies(p),
        },
        None => 0,
    };
    let parse_errors: u64 = if parsed.is_none() { 1 } else { 0 };
    let exit_errors: u64 = if exit_code != 0 { 1 } else { 0 };
    DocumentScan { count, exit_code: exit_code as i64, errors: parse_errors + exit_errors }
}

/// Reduces one run of a document tool to its scan result.
pub fn scan_document(tool: DocumentTool, run: &ToolRun) -> (r: DocumentScan)
    ensures
        r == document_scan(tool, *run),
{
    match run {
        ToolRun::Unavailable => DocumentScan { count: 0, exit_code: -1, errors: 1 },
        ToolRun::Finished { exit_code, stdout, .. } => {
            let parsed = parse_json(stdout.as_str().as_bytes());
            scan_from_parsed(tool, *exit_code, &parsed)
        },
    }
}

/// The dependency scorecard: the audit and the freshness check, side by side.
#[derive(Clone, Copy, Debug, PartialEq, Eq, Structural)]
pub struct DependencyScan {
    pub audit: DocumentScan,
    pub outdated: DocumentScan,
    /// Whether the audit tool could be run.
    pub tool_available: bool,
    /// Scan errors of both tools together.
    pub scan_errors: u64,
}

/// Combines one audit run and one freshness-check run into the scorecard.
pub fn dependency_scan(audit: &ToolRun, outdated: &ToolRun) -> (r: DependencyScan)
    ensures
        r.audit == document_scan(DocumentTool::Audit, *audit),
        r.outdated == document_scan(DocumentTool::Outdated, *outdated),
        r.tool_available == (*audit is Finished),
        r.scan_errors == r.audit.errors + r.outdated.errors,
{
    let audit_scan = scan_document(DocumentTool::Audit, audit);
    let outdated_scan = scan_document(DocumentTool::Outdated, outdated);
    let tool_available = match audit {
        ToolRun::Unavailable => false,
        ToolRun::Finished { .. } => true,
    };
    DependencyScan {
        audit: audit_scan,
        outdated: outdated_scan,
        tool_available,
        scan_errors: audit_scan.errors + outdated_scan.errors,
    }
}

} // verus!
