//! The publish audit log: one metadata line per publish, never the body,
//! in per-day files under the `audit` directory of the bus root.
use vstd::prelude::*;

use crate::text::{owned, push_str, push_zero_pad, zero_pad};

verus! {

/// One audit-log entry.
#[derive(Debug, Clone, PartialEq, Eq)]
pub struct AuditEntry {
    /// Who published: the peer, the webhook adapter or `cli:<host>`.
    pub publisher: String,
    /// ISO-8601 UTC time of the publish.
    pub ts_iso: String,
    pub topic: String,
    pub priority: String,
    pub ulid: String,
}

/// Why an audit line could not be written.
#[derive(Debug, Clone, PartialEq, Eq)]
pub enum AuditError {
    Io(String),
    Json(String),
}

/// `Path::join` of the relative component `audit`: no separator is added
/// after an empty path or one that already ends in `/`.
pub open spec fn audit_dir_of(root: Seq<char>) -> Seq<char> {
    if root.len() == 0 {
        "audit"@
    } else if root.last() == '/' {
        root + "audit"@
    } else {
        root + "/audit"@
    }
}

/// The audit directory under `bus_root`.
pub fn audit_dir(bus_root: &str) -> (p: String)
    ensures
        p@ == audit_dir_of(bus_root@),
{
    let cs = crate::text::chars_of(bus_root);
    if cs.len() == 0 {
        owned("audit")
    } else if cs[cs.len() - 1] == '/' {
        let mut p = owned(bus_root);
        push_str(&mut p, "audit");
        p
    } else {
        let mut p = owned(bus_root);
        push_str(&mut p, "/audit");
        p
    }
}


/// chrono's `%Y`: four digits, zero-padded, for years 0..=9999; otherwise
/// a sign and at least four digits.
pub open spec fn year_text(y: int) -> Seq<char> {
    if 0 <= y <= 9999 {
        zero_pad(y as nat, 4)
    } else if y < 0 {
        seq!['-'] + zero_pad((-y) as nat, 4)
    } else {
        seq!['+'] + zero_pad(y as nat, 4)
    }
}

/// The day's file name `%Y-%m-%d.jsonl`.
pub open spec fn day_file(y: int, m: nat, d: nat) -> Seq<char> {
    year_text(y) + seq!['-'] + zero_pad(m, 2) + seq!['-'] + zero_pad(d, 2) + ".jsonl"@
}

/// The audit file name of a calendar day.
pub fn filename_for_ymd(year: i32, month: u32, day: u32) -> (s: String)
    ensures
        s@ == day_file(year as int, month as nat, day as nat),
{
    proof {
        reveal_strlit("-");
        reveal_strlit("+");
    }
    let mut s = String::new();
    if year >= 0 && year <= 9999 {
        push_zero_pad(&mut s, year as u64, 4);
    } else if year < 0 {
        push_str(&mut s, "-");
        let a: u64 = (-(year as i64)) as u64;
        push_zero_pad(&mut s, a, 4);
    } else {
        push_str(&mut s, "+");
        push_zero_pad(&mut s, year as u64, 4);
    }
    push_str(&mut s, "-");
    push_zero_pad(&mut s, month as u64, 2);
    push_str(&mut s, "-");
    push_zero_pad(&mut s, day as u64, 2);
    push_str(&mut s, ".jsonl");
    s
}

} // verus!
