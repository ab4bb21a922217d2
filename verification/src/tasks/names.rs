//! How plan and task enums are read from their names in text, as the
//! browser binding receives them: case does not matter.
use vstd::prelude::*;

use crate::tasks::types::{PlanStatus, Priority, ProofKind};

verus! {

/// `c` is the lowercase ASCII letter or character `t`, or its uppercase
/// form.
pub open spec fn same_letter(c: char, t: char) -> bool {
    c == t || ('a' <= t && t <= 'z' && c as int + 32 == t as int)
}

/// `s` lowercases to `t`, a lowercase ASCII name.
pub open spec fn folds_to(s: Seq<char>, t: Seq<char>) -> bool {
    s.len() == t.len() && forall|i: int| 0 <= i < s.len() ==> same_letter(#[trigger] s[i], t[i])
}

fn folds_to_exec(s: &str, t: &str) -> (b: bool)
    ensures
        b == folds_to(s@, t@),
{
    let n = s.unicode_len();
    if n != t.unicode_len() {
        return false;
    }
    let mut i: usize = 0;
    while i < n
        invariant
            n == s@.len(),
            n == t@.len(),
            i <= n,
            forall|j: int| 0 <= j < i ==> same_letter(#[trigger] s@[j], t@[j]),
        decreases n - i,
    {
        let c = s.get_char(i);
        let d = t.get_char(i);
        if !(c == d || ('a' <= d && d <= 'z' && (c as u32) + 32 == (d as u32))) {
            return false;
        }
        i = i + 1;
    }
    true
}

/// The priority named `s`; any other text means `Medium`.
pub fn parse_priority(s: &str) -> (r: Priority)
    ensures
        r == if folds_to(s@, "low"@) {
            Priority::Low
        } else if folds_to(s@, "high"@) {
            Priority::High
        } else if folds_to(s@, "critical"@) {
            Priority::Critical
        } else {
            Priority::Medium
        },
{
    if folds_to_exec(s, "low") {
        Priority::Low
    } else if folds_to_exec(s, "high") {
        Priority::High
    } else if folds_to_exec(s, "critical") {
        Priority::Critical
    } else {
        Priority::Medium
    }
}

/// The plan status named `s`, if any.
pub fn parse_plan_status(s: &str) -> (r: Option<PlanStatus>)
    ensures
        r == if folds_to(s@, "active"@) {
            Some(PlanStatus::Active)
        } else if folds_to(s@, "completed"@) {
            Some(PlanStatus::Completed)
        } else if folds_to(s@, "archived"@) {
            Some(PlanStatus::Archived)
        } else {
            None
        },
{
    if folds_to_exec(s, "active") {
        Some(PlanStatus::Active)
    } else if folds_to_exec(s, "completed") {
        Some(PlanStatus::Completed)
    } else if folds_to_exec(s, "archived") {
        Some(PlanStatus::Archived)
    } else {
        None
    }
}

/// The proof kind named `s`, if any.
pub fn parse_proof_kind(s: &str) -> (r: Option<ProofKind>)
    ensures
        r == if folds_to(s@, "commit"@) {
            Some(ProofKind::Commit)
        } else if folds_to(s@, "file"@) {
            Some(ProofKind::File)
        } else if folds_to(s@, "test"@) {
            Some(ProofKind::Test)
        } else if folds_to(s@, "text"@) {
            Some(ProofKind::Text)
        } else {
            None
        },
{
    if folds_to_exec(s, "commit") {
        Some(ProofKind::Commit)
    } else if folds_to_exec(s, "file") {
        Some(ProofKind::File)
    } else if folds_to_exec(s, "test") {
        Some(ProofKind::Test)
    } else if folds_to_exec(s, "text") {
        Some(ProofKind::Text)
    } else {
        None
    }
}

} // verus!
