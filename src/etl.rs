//! The ETL mini-batch: the synthetic dataset's rows, and the aggregate over
//! the rows read back.

use crate::json::{as_u64, get_member, json_of_bytes, member, parse_json, Json};
use crate::text::{decimal, push_decimal};
use vstd::prelude::*;
use vstd::utf8::encode_utf8;

verus! {

/// Row `idx` of the dataset: `(group, value, score)`.
pub open spec fn dataset_row(idx: nat) -> (nat, nat, nat) {
    (idx % 50, (idx * 7 + 11) % 10000, (idx * 13 + 17) % 10000)
}

/// The JSON line of row `idx`, members in key order.
pub open spec fn dataset_line_spec(idx: nat) -> Seq<char> {
    let (group, value, score) = dataset_row(idx);
    "{\"group\":"@ + decimal(group) + ",\"id\":"@ + decimal(idx) + ",\"score\":"@ + decimal(score)
        + ",\"value\":"@ + decimal(value) + "}"@
}

/// Writes the JSON line of row `idx` of the dataset.
pub fn dataset_line(idx: u64) -> (r: String)
    ensures
        r@ == dataset_line_spec(idx as nat),
{
    let wide = idx as u128;
    let group = idx % 50;
    let value = ((wide * 7 + 11) % 10000) as u64;
    let score = ((wide * 13 + 17) % 10000) as u64;
    let mut s = String::from_str("{\"group\":");
    push_decimal(&mut s, group);
    s.append(",\"id\":");
    push_decimal(&mut s, idx);
    s.append(",\"score\":");
    push_decimal(&mut s, score);
    s.append(",\"value\":");
    push_decimal(&mut s, value);
    s.append("}");
    s
}

/// The `(group, value)` of a parsed row: an object with unsigned integer
/// members `group` and `value`, or an array of exactly those two integers.
pub open spec fn row_fields(p: Json) -> Option<(u64, u64)> {
    match p {
        Json::Object(_) => match (as_u64(member(p, "group"@)), as_u64(member(p, "value"@))) {
            (Some(g), Some(v)) => Some((g, v)),
            _ => None,
        },
        Json::Array(a) => if a@.len() == 2 {
            match (a@[0], a@[1]) {
                (Json::Number(Some(g)), Json::Number(Some(v))) => Some((g, v)),
                _ => None,
            }
        } else {
            None
        },
        _ => None,
    }
}

/// What a row adds to the aggregate: `(3 * value + group) mod 1000`.
pub open spec fn row_term(group: u64, value: u64) -> u64 {
    ((value as int * 3 + group as int) % 1000) as u64
}

/// The running result of reading the dataset back.
#[derive(Clone, Copy, Debug, PartialEq, Eq, Structural)]
pub struct EtlTally {
    /// Rows read.
    pub rows: usize,
    /// The sum of the rows' terms.
    pub aggregate: u64,
}

impl EtlTally {
    /// Nothing read yet.
    pub fn new() -> (r: EtlTally)
        ensures
            r == (EtlTally { rows: 0, aggregate: 0 }),
    {
        EtlTally { rows: 0, aggregate: 0 }
    }

    /// Adds a parsed line: a row counts and adds its term; anything else is skipped.
    pub fn absorb_parsed(&mut self, parsed: &Option<Json>)
        requires
            old(self).rows < usize::MAX,
            old(self).aggregate + 1000 <= u64::MAX,
        ensures
            match parsed {
                Some(p) => match row_fields(*p) {
                    Some((g, v)) => *final(self) == (EtlTally {
                        rows: (old(self).rows + 1) as usize,
                        aggregate: (old(self).aggregate + row_term(g, v)) as u64,
                    }),
                    None => *final(self) == *old(self),
                },
                None => *final(self) == *old(self),
            },
    {
        let fields: Option<(u64, u64)> = match parsed {
            Some(p) => match p {
                Json::Object(_) => match (
                    crate::json::u64_of(get_member(p, "group")),
                    crate::json::u64_of(get_member(p, "value")),
                ) {
                    (Some(g), Some(v)) => Some((g, v)),
                    _ => None,
                },
                Json::Array(a) => {
                    if a.len() == 2 {
                        match (&a[0], &a[1]) {
                            (Json::Number(Some(g)), Json::Number(Some(v))) => Some((*g, *v)),
                            _ => None,
                        }
                    } else {
                        None
                    }
                },
                _ => None,
            },
            None => None,
        };
        if let Some((g, v)) = fields {
            let term = ((v as u128 * 3 + g as u128) % 1000) as u64;
            self.rows = self.rows + 1;
            self.aggregate = self.aggregate + term;
        }
    }

    /// Adds one line of the dataset.
    pub fn absorb(&mut self, line: &str)
        requires
            old(self).rows < usize::MAX,
            old(self).aggregate + 1000 <= u64::MAX,
        ensures
            match json_of_bytes(encode_utf8(line@)) {
                Some(p) => match row_fields(p) {
                    Some((g, v)) => *final(self) == (EtlTally {
                        rows: (old(self).rows + 1) as usize,
                        aggregate: (old(self).aggregate + row_term(g, v)) as u64,
                    }),
                    None => *final(self) == *old(self),
                },
                None => *final(self) == *old(self),
            },
    {
        let parsed = parse_json(line.as_bytes());
        self.absorb_parsed(&parsed);
    }
}

} // verus!
