//! The text forms enums are stored under, and their parsers.
use vstd::prelude::*;

use crate::reminders::types::{Priority, ReminderStatus};
use crate::taint::types::{TaintEffect, TaintKind, TaintSeverity};
use crate::text::{owned, str_eq};

verus! {

pub open spec fn kind_text(k: TaintKind) -> Seq<char> {
    match k {
        TaintKind::Taint => "taint"@,
        TaintKind::Quarantine => "quarantine"@,
        TaintKind::Watch => "watch"@,
    }
}

pub open spec fn effect_text(e: TaintEffect) -> Seq<char> {
    match e {
        TaintEffect::Warn => "warn"@,
        TaintEffect::Block => "block"@,
        TaintEffect::Review => "review"@,
        TaintEffect::Isolate => "isolate"@,
        TaintEffect::Advisory => "advisory"@,
    }
}

pub open spec fn severity_text(s: TaintSeverity) -> Seq<char> {
    match s {
        TaintSeverity::Low => "low"@,
        TaintSeverity::Medium => "medium"@,
        TaintSeverity::High => "high"@,
        TaintSeverity::Critical => "critical"@,
    }
}

pub open spec fn status_text(s: ReminderStatus) -> Seq<char> {
    match s {
        ReminderStatus::Pending => "pending"@,
        ReminderStatus::Due => "due"@,
        ReminderStatus::AwaitingPermission => "awaiting_permission"@,
        ReminderStatus::InProgress => "in_progress"@,
        ReminderStatus::Completed => "completed"@,
        ReminderStatus::Snoozed => "snoozed"@,
        ReminderStatus::Cancelled => "cancelled"@,
    }
}

/// The priority a stored number names: 1 for `Critical` up to 5 for
/// `Minimal`.
pub open spec fn priority_of(n: int) -> Option<Priority> {
    if n == 1 {
        Some(Priority::Critical)
    } else if n == 2 {
        Some(Priority::High)
    } else if n == 3 {
        Some(Priority::Medium)
    } else if n == 4 {
        Some(Priority::Low)
    } else if n == 5 {
        Some(Priority::Minimal)
    } else {
        None
    }
}

pub fn kind_str(k: TaintKind) -> (r: &'static str)
    ensures
        r@ == kind_text(k),
{
    match k {
        TaintKind::Taint => "taint",
        TaintKind::Quarantine => "quarantine",
        TaintKind::Watch => "watch",
    }
}

pub fn parse_kind(s: &str) -> (r: Option<TaintKind>)
    ensures
        match r {
            Some(k) => kind_text(k) == s@,
            None => forall|k: TaintKind| #[trigger] kind_text(k) != s@,
        },
{
    if str_eq(s, "taint") {
        Some(TaintKind::Taint)
    } else if str_eq(s, "quarantine") {
        Some(TaintKind::Quarantine)
    } else if str_eq(s, "watch") {
        Some(TaintKind::Watch)
    } else {
        None
    }
}

pub fn effect_str(e: TaintEffect) -> (r: &'static str)
    ensures
        r@ == effect_text(e),
{
    match e {
        TaintEffect::Warn => "warn",
        TaintEffect::Block => "block",
        TaintEffect::Review => "review",
        TaintEffect::Isolate => "isolate",
        TaintEffect::Advisory => "advisory",
    }
}

pub fn parse_effect(s: &str) -> (r: Option<TaintEffect>)
    ensures
        match r {
            Some(e) => effect_text(e) == s@,
            None => forall|e: TaintEffect| #[trigger] effect_text(e) != s@,
        },
{
    if str_eq(s, "warn") {
        Some(TaintEffect::Warn)
    } else if str_eq(s, "block") {
        Some(TaintEffect::Block)
    } else if str_eq(s, "review") {
        Some(TaintEffect::Review)
    } else if str_eq(s, "isolate") {
        Some(TaintEffect::Isolate)
    } else if str_eq(s, "advisory") {
        Some(TaintEffect::Advisory)
    } else {
        None
    }
}

pub fn severity_str(v: TaintSeverity) -> (r: &'static str)
    ensures
        r@ == severity_text(v),
{
    match v {
        TaintSeverity::Low => "low",
        TaintSeverity::Medium => "medium",
        TaintSeverity::High => "high",
        TaintSeverity::Critical => "critical",
    }
}

pub fn parse_severity(s: &str) -> (r: Option<TaintSeverity>)
    ensures
        match r {
            Some(v) => severity_text(v) == s@,
            None => forall|v: TaintSeverity| #[trigger] severity_text(v) != s@,
        },
{
    if str_eq(s, "low") {
        Some(TaintSeverity::Low)
    } else if str_eq(s, "medium") {
        Some(TaintSeverity::Medium)
    } else if str_eq(s, "high") {
        Some(TaintSeverity::High)
    } else if str_eq(s, "critical") {
        Some(TaintSeverity::Critical)
    } else {
        None
    }
}

pub fn status_str(v: ReminderStatus) -> (r: &'static str)
    ensures
        r@ == status_text(v),
{
    match v {
        ReminderStatus::Pending => "pending",
        ReminderStatus::Due => "due",
        ReminderStatus::AwaitingPermission => "awaiting_permission",
        ReminderStatus::InProgress => "in_progress",
        ReminderStatus::Completed => "completed",
        ReminderStatus::Snoozed => "snoozed",
        ReminderStatus::Cancelled => "cancelled",
    }
}

pub fn parse_status(s: &str) -> (r: Option<ReminderStatus>)
    ensures
        match r {
            Some(v) => status_text(v) == s@,
            None => forall|v: ReminderStatus| #[trigger] status_text(v) != s@,
        },
{
    if str_eq(s, "pending") {
        Some(ReminderStatus::Pending)
    } else if str_eq(s, "due") {
        Some(ReminderStatus::Due)
    } else if str_eq(s, "awaiting_permission") {
        Some(ReminderStatus::AwaitingPermission)
    } else if str_eq(s, "in_progress") {
        Some(ReminderStatus::InProgress)
    } else if str_eq(s, "completed") {
        Some(ReminderStatus::Completed)
    } else if str_eq(s, "snoozed") {
        Some(ReminderStatus::Snoozed)
    } else if str_eq(s, "cancelled") {
        Some(ReminderStatus::Cancelled)
    } else {
        None
    }
}

/// The priority a stored number names.
pub fn parse_priority(n: i64) -> (r: Option<Priority>)
    ensures
        r == priority_of(n as int),
{
    if n == 1 {
        Some(Priority::Critical)
    } else if n == 2 {
        Some(Priority::High)
    } else if n == 3 {
        Some(Priority::Medium)
    } else if n == 4 {
        Some(Priority::Low)
    } else if n == 5 {
        Some(Priority::Minimal)
    } else {
        None
    }
}

/// `prefix` followed by `s`.
pub fn message(prefix: &str, s: &str) -> (r: String)
    ensures
        r@ == prefix@ + s@,
{
    let mut m = owned(prefix);
    m.append(s);
    m
}

/// A stored number names a priority exactly when it is that priority's
/// urgency number, and each priority is named by its own number.
pub proof fn priority_numbers_round_trip(p: Priority)
    ensures
        priority_of(p.number() as int) == Some(p),
{
}

/// Distinct kinds are stored under distinct texts.
pub proof fn kind_texts_distinct(a: TaintKind, b: TaintKind)
    ensures
        kind_text(a) == kind_text(b) ==> a == b,
{
    reveal_strlit("taint");
    reveal_strlit("quarantine");
    reveal_strlit("watch");
    if a != b {
        assert(kind_text(a).len() != kind_text(b).len() || kind_text(a)[0] != kind_text(b)[0]);
    }
}

/// Distinct effects are stored under distinct texts.
pub proof fn effect_texts_distinct(a: TaintEffect, b: TaintEffect)
    ensures
        effect_text(a) == effect_text(b) ==> a == b,
{
    reveal_strlit("warn");
    reveal_strlit("block");
    reveal_strlit("review");
    reveal_strlit("isolate");
    reveal_strlit("advisory");
    if a != b {
        assert(effect_text(a)[0] != effect_text(b)[0] || effect_text(a).len() != effect_text(
            b,
        ).len());
    }
}

/// Distinct severities are stored under distinct texts.
pub proof fn severity_texts_distinct(a: TaintSeverity, b: TaintSeverity)
    ensures
        severity_text(a) == severity_text(b) ==> a == b,
{
    reveal_strlit("low");
    reveal_strlit("medium");
    reveal_strlit("high");
    reveal_strlit("critical");
    if a != b {
        assert(severity_text(a)[0] != severity_text(b)[0]);
    }
}

/// Distinct reminder statuses are stored under distinct texts.
pub proof fn status_texts_distinct(a: ReminderStatus, b: ReminderStatus)
    ensures
        status_text(a) == status_text(b) ==> a == b,
{
    reveal_strlit("pending");
    reveal_strlit("due");
    reveal_strlit("awaiting_permission");
    reveal_strlit("in_progress");
    reveal_strlit("completed");
    reveal_strlit("snoozed");
    reveal_strlit("cancelled");
    if a != b {
        assert(status_text(a).len() != status_text(b).len() || status_text(a)[0] != status_text(
            b,
        )[0] || status_text(a)[1] != status_text(b)[1]);
    }
}

} // verus!
