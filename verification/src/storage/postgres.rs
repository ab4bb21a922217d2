//! How the Postgres backend stores taint and reminder enums (as text, and
//! reminder priorities as their urgency number; decoding errors are
//! backend errors), and the reminder listing query it sends.
use vstd::prelude::*;

use crate::reminders::error::ReminderError;
use crate::reminders::schedule::Schedule;
use crate::reminders::types::{
    ExecutionRecord, Priority, Reminder, ReminderFilter, ReminderRef, ReminderStatus,
};
use crate::storage::columns::{
    as_date_read, as_optional_date_read, date_read, first_of, json_failure, optional_date_read,
    read_optional_date, reminder_column_failure, reminder_columns, reminder_holds_row,
    taint_date_failure, taint_dates, taint_holds_row, DateRead,
};
use crate::storage::memory::trim_slashes;
use crate::storage::sqlite::prefix_params;
use crate::storage::codec::{
    effect_str, effect_text, kind_str, kind_text, message, parse_effect, parse_kind,
    parse_priority, parse_severity, parse_status, priority_of, severity_str, severity_text,
    status_str, status_text,
};
use crate::storage::traits::StorageError;
use crate::taint::types::{Taint, TaintEffect, TaintKind, TaintMetadata, TaintSeverity};
use crate::text::{
    decimal, owned, push_decimal, push_signed_decimal, seq_contains, signed_decimal, str_contains,
};
use crate::time::{parse_rfc3339, Timestamp};

verus! {

/// Connection-pool cap applied when a tenant connection names none.
pub const DEFAULT_POOL_SIZE: usize = 32;

pub fn pg_kind_to_str(k: TaintKind) -> (r: &'static str)
    ensures
        r@ == kind_text(k),
{
    kind_str(k)
}

/// The kind stored as `s`; an unknown text is a backend error naming it.
pub fn pg_kind_from_str(s: &str) -> (r: Result<TaintKind, StorageError>)
    ensures
        match r {
            Ok(k) => kind_text(k) == s@,
            Err(e) => (forall|k: TaintKind| #[trigger] kind_text(k) != s@) && (e matches StorageError::Backend(m)
                && m@ == "unknown taint kind: "@ + s@),
        },
{
    match parse_kind(s) {
        Some(k) => Ok(k),
        None => Err(StorageError::Backend(message("unknown taint kind: ", s))),
    }
}

pub fn pg_effect_to_str(e: TaintEffect) -> (r: &'static str)
    ensures
        r@ == effect_text(e),
{
    effect_str(e)
}

/// The effect stored as `s`; an unknown text is a backend error naming
/// it.
pub fn pg_effect_from_str(s: &str) -> (r: Result<TaintEffect, StorageError>)
    ensures
        match r {
            Ok(e) => effect_text(e) == s@,
            Err(e) => (forall|x: TaintEffect| #[trigger] effect_text(x) != s@) && (e matches StorageError::Backend(m)
                && m@ == "unknown taint effect: "@ + s@),
        },
{
    match parse_effect(s) {
        Some(e) => Ok(e),
        None => Err(StorageError::Backend(message("unknown taint effect: ", s))),
    }
}

pub fn pg_severity_to_str(s: TaintSeverity) -> (r: &'static str)
    ensures
        r@ == severity_text(s),
{
    severity_str(s)
}

/// The severity stored as `s`; an unknown text is a backend error naming
/// it.
pub fn pg_severity_from_str(s: &str) -> (r: Result<TaintSeverity, StorageError>)
    ensures
        match r {
            Ok(v) => severity_text(v) == s@,
            Err(e) => (forall|x: TaintSeverity| #[trigger] severity_text(x) != s@) && (e matches StorageError::Backend(m)
                && m@ == "unknown taint severity: "@ + s@),
        },
{
    match parse_severity(s) {
        Some(v) => Ok(v),
        None => Err(StorageError::Backend(message("unknown taint severity: ", s))),
    }
}

pub fn pg_reminder_status_to_str(s: ReminderStatus) -> (r: &'static str)
    ensures
        r@ == status_text(s),
{
    status_str(s)
}

/// The reminder status stored as `s`; an unknown text is a backend error
/// naming it.
pub fn pg_reminder_status_from_str(s: &str) -> (r: Result<ReminderStatus, StorageError>)
    ensures
        match r {
            Ok(v) => status_text(v) == s@,
            Err(e) => (forall|x: ReminderStatus| #[trigger] status_text(x) != s@) && (e matches StorageError::Backend(m)
                && m@ == "unknown reminder status: "@ + s@),
        },
{
    match parse_status(s) {
        Some(v) => Ok(v),
        None => Err(StorageError::Backend(message("unknown reminder status: ", s))),
    }
}

/// A priority is stored as its urgency number.
pub fn pg_priority_to_i32(p: Priority) -> (r: i32)
    ensures
        r == p.number(),
{
    p.as_u8() as i32
}

/// The priority stored as `n`; any other number is a backend error
/// naming it.
pub fn pg_priority_from_i32(n: i32) -> (r: Result<Priority, StorageError>)
    ensures
        match r {
            Ok(p) => priority_of(n as int) == Some(p),
            Err(e) => priority_of(n as int) is None && (e matches StorageError::Backend(m)
                && m@ == "unknown priority value: "@ + signed_decimal(n as int)),
        },
{
    match parse_priority(n as i64) {
        Some(p) => Ok(p),
        None => {
            let mut m = owned("unknown priority value: ");
            push_signed_decimal(&mut m, n as i64);
            Err(StorageError::Backend(m))
        },
    }
}

/// `text` followed by the placeholder number `n` when `present`, else
/// nothing.
pub open spec fn numbered(present: bool, text: Seq<char>, n: nat) -> Seq<char> {
    if present {
        text + decimal(n)
    } else {
        Seq::empty()
    }
}

/// One more when `b`.
pub open spec fn step(n: nat, b: bool) -> nat {
    if b {
        n + 1
    } else {
        n
    }
}

/// The query that lists a tenant's reminders for `f`: the tenant is `$1`
/// and the filters SQL can test (status, priority, author, due time) take
/// the next placeholders in that order, most urgent first. References and
/// tags are checked on the rows that come back.
pub open spec fn pg_reminder_list_query(f: ReminderFilter) -> Seq<char> {
    let n1: nat = 2;
    let n2 = step(n1, f.status is Some);
    let n3 = step(n2, f.priority_at_most is Some);
    let n4 = step(n3, f.created_by is Some);
    "SELECT * FROM reminders WHERE tenant_id = $1"@ + numbered(
        f.status is Some,
        " AND status = $"@,
        n1,
    ) + numbered(f.priority_at_most is Some, " AND priority <= $"@, n2) + numbered(
        f.created_by is Some,
        " AND created_by = $"@,
        n3,
    ) + numbered(f.due_before is Some, " AND due_at <= $"@, n4)
        + " ORDER BY priority ASC, due_at ASC"@
}

fn push_numbered(sql: &mut String, present: bool, text: &str, n: u64) -> (next: u64)
    requires
        n < 10,
    ensures
        final(sql)@ == old(sql)@ + numbered(present, text@, n as nat),
        next == step(n as nat, present),
{
    if present {
        sql.append(text);
        push_decimal(sql, n);
        n + 1
    } else {
        proof {
            assert(old(sql)@ + Seq::<char>::empty() =~= old(sql)@);
        }
        n
    }
}

/// The SQL text of a tenant's reminder listing for `filter`.
pub fn pg_reminder_list_sql(filter: &ReminderFilter) -> (r: String)
    ensures
        r@ == pg_reminder_list_query(*filter),
{
    let mut sql = owned("SELECT * FROM reminders WHERE tenant_id = $1");
    let n = push_numbered(&mut sql, filter.status.is_some(), " AND status = $", 2);
    let n = push_numbered(&mut sql, filter.priority_at_most.is_some(), " AND priority <= $", n);
    let n = push_numbered(&mut sql, filter.created_by.is_some(), " AND created_by = $", n);
    let _ = push_numbered(&mut sql, filter.due_before.is_some(), " AND due_at <= $", n);
    sql.append(" ORDER BY priority ASC, due_at ASC");
    proof {
        assert(sql@ =~= pg_reminder_list_query(*filter));
    }
    sql
}

/// The query that lists a tenant's taints: unresolved ones unless asked
/// otherwise, of one kind when a kind is given, at or under a path when a
/// prefix is given, newest first. The tenant is `$1`; the kind, then the
/// path and its `LIKE` pattern, take the next placeholders.
pub open spec fn pg_taint_list_query(has_prefix: bool, has_kind: bool, include_resolved: bool) -> Seq<
    char,
> {
    if has_kind {
        if has_prefix {
            if include_resolved {
                "SELECT * FROM taints\n                              WHERE tenant_id = $1 AND kind = $2\n                                AND (path = $3 OR path LIKE $4)\n                              ORDER BY created_at DESC"@
            } else {
                "SELECT * FROM taints\n                              WHERE tenant_id = $1 AND resolved_at IS NULL AND kind = $2\n                                AND (path = $3 OR path LIKE $4)\n                              ORDER BY created_at DESC"@
            }
        } else if include_resolved {
            "SELECT * FROM taints\n                              WHERE tenant_id = $1 AND kind = $2\n                              ORDER BY created_at DESC"@
        } else {
            "SELECT * FROM taints\n                              WHERE tenant_id = $1 AND resolved_at IS NULL AND kind = $2\n                              ORDER BY created_at DESC"@
        }
    } else if has_prefix {
        if include_resolved {
            "SELECT * FROM taints\n                              WHERE tenant_id = $1 AND (path = $2 OR path LIKE $3)\n                              ORDER BY created_at DESC"@
        } else {
            "SELECT * FROM taints\n                              WHERE tenant_id = $1 AND resolved_at IS NULL\n                                AND (path = $2 OR path LIKE $3)\n                              ORDER BY created_at DESC"@
        }
    } else if include_resolved {
        "SELECT * FROM taints WHERE tenant_id = $1\n                              ORDER BY created_at DESC"@
    } else {
        "SELECT * FROM taints\n                              WHERE tenant_id = $1 AND resolved_at IS NULL\n                              ORDER BY created_at DESC"@
    }
}

/// The SQL text of a tenant's taint listing for these filters.
pub fn pg_taint_list_sql(path_prefix: Option<&str>, kind: Option<TaintKind>, include_resolved: bool) -> (r:
    &'static str)
    ensures
        r@ == pg_taint_list_query(path_prefix is Some, kind is Some, include_resolved),
{
    let has_prefix = path_prefix.is_some();
    let has_kind = kind.is_some();
    if has_kind {
        if has_prefix {
            if include_resolved {
                "SELECT * FROM taints\n                              WHERE tenant_id = $1 AND kind = $2\n                                AND (path = $3 OR path LIKE $4)\n                              ORDER BY created_at DESC"
            } else {
                "SELECT * FROM taints\n                              WHERE tenant_id = $1 AND resolved_at IS NULL AND kind = $2\n                                AND (path = $3 OR path LIKE $4)\n                              ORDER BY created_at DESC"
            }
        } else if include_resolved {
            "SELECT * FROM taints\n                              WHERE tenant_id = $1 AND kind = $2\n                              ORDER BY created_at DESC"
        } else {
            "SELECT * FROM taints\n                              WHERE tenant_id = $1 AND resolved_at IS NULL AND kind = $2\n                              ORDER BY created_at DESC"
        }
    } else if has_prefix {
        if include_resolved {
            "SELECT * FROM taints\n                              WHERE tenant_id = $1 AND (path = $2 OR path LIKE $3)\n                              ORDER BY created_at DESC"
        } else {
            "SELECT * FROM taints\n                              WHERE tenant_id = $1 AND resolved_at IS NULL\n                                AND (path = $2 OR path LIKE $3)\n                              ORDER BY created_at DESC"
        }
    } else if include_resolved {
        "SELECT * FROM taints WHERE tenant_id = $1\n                              ORDER BY created_at DESC"
    } else {
        "SELECT * FROM taints\n                              WHERE tenant_id = $1 AND resolved_at IS NULL\n                              ORDER BY created_at DESC"
    }
}

/// The values bound after the tenant in the taint listing: the kind's
/// text when a kind is given, then the prefix without trailing slashes
/// and that followed by `/%` when a prefix is given.
pub open spec fn pg_taint_list_arguments(path_prefix: Option<&str>, kind: Option<TaintKind>) -> Seq<
    Seq<char>,
> {
    let k = match kind {
        Some(k) => seq![kind_text(k)],
        None => Seq::<Seq<char>>::empty(),
    };
    let p = match path_prefix {
        Some(p) => seq![trim_slashes(p@), trim_slashes(p@) + "/%"@],
        None => Seq::<Seq<char>>::empty(),
    };
    k + p
}

/// The values bound after the tenant in the taint listing.
pub fn pg_taint_list_values(path_prefix: Option<&str>, kind: Option<TaintKind>) -> (r: Vec<String>)
    ensures
        r@.map_values(|s: String| s@) == pg_taint_list_arguments(path_prefix, kind),
{
    let mut v: Vec<String> = Vec::new();
    match kind {
        Some(k) => {
            v.push(owned(pg_kind_to_str(k)));
        },
        None => {},
    }
    match path_prefix {
        Some(p) => {
            let (t, like) = prefix_params(p);
            v.push(t);
            v.push(like);
        },
        None => {},
    }
    proof {
        assert(v@.map_values(|s: String| s@) =~= pg_taint_list_arguments(path_prefix, kind));
    }
    v
}

/// `e` is the error a failure describes: a backend error when its flag is
/// set, else a serialization error, with its message.
pub open spec fn reports(e: StorageError, failure: Option<(bool, Seq<char>)>) -> bool {
    match e {
        StorageError::Backend(m) => failure == Some((true, m@)),
        StorageError::Serialization(m) => failure == Some((false, m@)),
        _ => false,
    }
}

/// A column failure reported as a serialization error.
pub open spec fn as_serialization(f: Option<Seq<char>>) -> Option<(bool, Seq<char>)> {
    match f {
        Some(m) => Some((false, m)),
        None => None,
    }
}

/// Why a Postgres reminders row does not decode: the first failure in the
/// order the columns are checked, status and priority (backend errors),
/// then the dates and JSON columns (serialization errors).
pub open spec fn pg_reminder_failure(
    status: Seq<char>,
    priority: int,
    commands: Result<Vec<String>, String>,
    refs: Result<Vec<ReminderRef>, String>,
    due_at: DateRead,
    schedule: Option<Result<Schedule, String>>,
    created_at: DateRead,
    snoozed_until: Option<DateRead>,
    executions: Result<Vec<ExecutionRecord>, String>,
    tags: Result<Vec<String>, String>,
) -> Option<(bool, Seq<char>)> {
    if forall|v: ReminderStatus| #[trigger] status_text(v) != status {
        Some((true, "unknown reminder status: "@ + status))
    } else if priority_of(priority) is None {
        Some((true, "unknown priority value: "@ + signed_decimal(priority)))
    } else {
        as_serialization(
            reminder_column_failure(
                commands,
                refs,
                due_at,
                schedule,
                created_at,
                snoozed_until,
                executions,
                tags,
            ),
        )
    }
}

/// `r` is what a Postgres reminders row decodes to: the reminder holding
/// the row when nothing fails, else the error for the first failure.
pub open spec fn pg_reminder_decoded(
    r: Result<Reminder, StorageError>,
    id: String,
    title: String,
    instructions: String,
    commands: Result<Vec<String>, String>,
    refs: Result<Vec<ReminderRef>, String>,
    priority: i32,
    due_at: DateRead,
    schedule: Option<Result<Schedule, String>>,
    autonomous: bool,
    created_by: String,
    created_at: DateRead,
    status: Seq<char>,
    snoozed_until: Option<DateRead>,
    executions: Result<Vec<ExecutionRecord>, String>,
    tags: Result<Vec<String>, String>,
) -> bool {
    let failure = pg_reminder_failure(
        status,
        priority as int,
        commands,
        refs,
        due_at,
        schedule,
        created_at,
        snoozed_until,
        executions,
        tags,
    );
    match r {
        Ok(x) => failure is None && reminder_holds_row(
            x,
            id,
            title,
            instructions,
            commands,
            refs,
            priority as int,
            due_at,
            schedule,
            autonomous,
            created_by,
            created_at,
            status,
            snoozed_until,
            executions,
            tags,
        ),
        Err(e) => reports(e, failure),
    }
}

/// Decodes a Postgres reminders row whose date columns have been read and
/// whose JSON columns have been parsed.
pub fn pg_reminder_from_read_columns(
    id: String,
    title: String,
    instructions: String,
    commands: Result<Vec<String>, String>,
    refs: Result<Vec<ReminderRef>, String>,
    priority: i32,
    due_at: Result<Timestamp, String>,
    schedule: Option<Result<Schedule, String>>,
    autonomous: bool,
    created_by: String,
    created_at: Result<Timestamp, String>,
    status: &str,
    snoozed_until: Option<Result<Timestamp, String>>,
    executions: Result<Vec<ExecutionRecord>, String>,
    tags: Result<Vec<String>, String>,
) -> (r: Result<Reminder, StorageError>)
    ensures
        pg_reminder_decoded(
            r,
            id,
            title,
            instructions,
            commands,
            refs,
            priority,
            as_date_read(due_at),
            schedule,
            autonomous,
            created_by,
            as_date_read(created_at),
            status@,
            as_optional_date_read(snoozed_until),
            executions,
            tags,
        ),
{
    let status = match pg_reminder_status_from_str(status) {
        Ok(v) => v,
        Err(e) => {
            return Err(e);
        },
    };
    let priority = match pg_priority_from_i32(priority) {
        Ok(p) => p,
        Err(e) => {
            return Err(e);
        },
    };
    let c = match reminder_columns(
        commands,
        refs,
        due_at,
        schedule,
        created_at,
        snoozed_until,
        executions,
        tags,
    ) {
        Ok(c) => c,
        Err(m) => {
            return Err(StorageError::Serialization(m));
        },
    };
    Ok(
        Reminder {
            id,
            title,
            instructions,
            commands: c.0,
            refs: c.1,
            priority,
            due_at: c.2,
            schedule: c.3,
            autonomous,
            created_by,
            created_at: c.4,
            status,
            snoozed_until: c.5,
            executions: c.6,
            tags: c.7,
        },
    )
}

/// Decodes a reminders row as Postgres returns it: the dates as RFC 3339
/// texts, the JSON columns parsed.
pub fn pg_reminder_from_columns(
    id: String,
    title: String,
    instructions: String,
    commands: Result<Vec<String>, String>,
    refs: Result<Vec<ReminderRef>, String>,
    priority: i32,
    due_at: &str,
    schedule: Option<Result<Schedule, String>>,
    autonomous: bool,
    created_by: String,
    created_at: &str,
    status: &str,
    snoozed_until: Option<&str>,
    executions: Result<Vec<ExecutionRecord>, String>,
    tags: Result<Vec<String>, String>,
) -> (r: Result<Reminder, StorageError>)
    ensures
        pg_reminder_decoded(
            r,
            id,
            title,
            instructions,
            commands,
            refs,
            priority,
            date_read(due_at),
            schedule,
            autonomous,
            created_by,
            date_read(created_at),
            status@,
            optional_date_read(snoozed_until),
            executions,
            tags,
        ),
{
    let due = parse_rfc3339(due_at);
    let created = parse_rfc3339(created_at);
    let snoozed = read_optional_date(snoozed_until);
    pg_reminder_from_read_columns(
        id,
        title,
        instructions,
        commands,
        refs,
        priority,
        due,
        schedule,
        autonomous,
        created_by,
        created,
        status,
        snoozed,
        executions,
        tags,
    )
}

/// Why a Postgres taints row does not decode: the first failure in the
/// order the columns are checked, the metadata and the dates
/// (serialization errors), then kind, effect and severity (backend
/// errors).
pub open spec fn pg_taint_failure(
    kind: Seq<char>,
    effect: Seq<char>,
    severity: Seq<char>,
    created_at: DateRead,
    expires_at: Option<DateRead>,
    resolved_at: Option<DateRead>,
    metadata: Result<TaintMetadata, String>,
) -> Option<(bool, Seq<char>)> {
    let column = first_of(
        json_failure("taint metadata: "@, metadata),
        taint_date_failure(created_at, expires_at, resolved_at),
    );
    if column is Some {
        as_serialization(column)
    } else if forall|k: TaintKind| #[trigger] kind_text(k) != kind {
        Some((true, "unknown taint kind: "@ + kind))
    } else if forall|e: TaintEffect| #[trigger] effect_text(e) != effect {
        Some((true, "unknown taint effect: "@ + effect))
    } else if forall|v: TaintSeverity| #[trigger] severity_text(v) != severity {
        Some((true, "unknown taint severity: "@ + severity))
    } else {
        None
    }
}

/// `r` is what a Postgres taints row decodes to: the taint holding the
/// row when nothing fails, else the error for the first failure.
pub open spec fn pg_taint_decoded(
    r: Result<Taint, StorageError>,
    id: String,
    path: String,
    name: String,
    kind: Seq<char>,
    effect: Seq<char>,
    severity: Seq<char>,
    reason: String,
    agent_id: String,
    commit_id: String,
    created_at: DateRead,
    expires_at: Option<DateRead>,
    resolved_at: Option<DateRead>,
    resolved_by: Option<String>,
    resolved_reason: Option<String>,
    resolved_proof: Option<String>,
    propagate: bool,
    metadata: Result<TaintMetadata, String>,
) -> bool {
    let failure = pg_taint_failure(
        kind,
        effect,
        severity,
        created_at,
        expires_at,
        resolved_at,
        metadata,
    );
    match r {
        Ok(x) => failure is None && taint_holds_row(
            x,
            id,
            path,
            name,
            kind,
            effect,
            severity,
            reason,
            agent_id,
            commit_id,
            created_at,
            expires_at,
            resolved_at,
            resolved_by,
            resolved_reason,
            resolved_proof,
            propagate,
            metadata,
        ),
        Err(e) => reports(e, failure),
    }
}

/// Decodes a Postgres taints row whose date columns have been read and
/// whose metadata has been parsed.
pub fn pg_taint_from_read_columns(
    id: String,
    path: String,
    name: String,
    kind: &str,
    effect: &str,
    severity: &str,
    reason: String,
    agent_id: String,
    commit_id: String,
    created_at: Result<Timestamp, String>,
    expires_at: Option<Result<Timestamp, String>>,
    resolved_at: Option<Result<Timestamp, String>>,
    resolved_by: Option<String>,
    resolved_reason: Option<String>,
    resolved_proof: Option<String>,
    propagate: bool,
    metadata: Result<TaintMetadata, String>,
) -> (r: Result<Taint, StorageError>)
    ensures
        pg_taint_decoded(
            r,
            id,
            path,
            name,
            kind@,
            effect@,
            severity@,
            reason,
            agent_id,
            commit_id,
            as_date_read(created_at),
            as_optional_date_read(expires_at),
            as_optional_date_read(resolved_at),
            resolved_by,
            resolved_reason,
            resolved_proof,
            propagate,
            metadata,
        ),
{
    let metadata = match metadata {
        Ok(m) => m,
        Err(e) => {
            return Err(StorageError::Serialization(message("taint metadata: ", e.as_str())));
        },
    };
    let dates = match taint_dates(created_at, expires_at, resolved_at) {
        Ok(d) => d,
        Err(m) => {
            return Err(StorageError::Serialization(m));
        },
    };
    let kind = match pg_kind_from_str(kind) {
        Ok(k) => k,
        Err(e) => {
            return Err(e);
        },
    };
    let effect = match pg_effect_from_str(effect) {
        Ok(x) => x,
        Err(e) => {
            return Err(e);
        },
    };
    let severity = match pg_severity_from_str(severity) {
        Ok(v) => v,
        Err(e) => {
            return Err(e);
        },
    };
    Ok(
        Taint {
            id,
            path,
            name,
            kind,
            effect,
            severity,
            reason,
            agent_id,
            commit_id,
            created_at: dates.0,
            expires_at: dates.1,
            resolved_at: dates.2,
            resolved_by,
            resolved_reason,
            resolved_proof,
            propagate,
            metadata,
        },
    )
}

/// Decodes a taints row as Postgres returns it: the dates as RFC 3339
/// texts, the metadata parsed.
pub fn pg_taint_from_columns(
    id: String,
    path: String,
    name: String,
    kind: &str,
    effect: &str,
    severity: &str,
    reason: String,
    agent_id: String,
    commit_id: String,
    created_at: &str,
    expires_at: Option<&str>,
    resolved_at: Option<&str>,
    resolved_by: Option<String>,
    resolved_reason: Option<String>,
    resolved_proof: Option<String>,
    propagate: bool,
    metadata: Result<TaintMetadata, String>,
) -> (r: Result<Taint, StorageError>)
    ensures
        pg_taint_decoded(
            r,
            id,
            path,
            name,
            kind@,
            effect@,
            severity@,
            reason,
            agent_id,
            commit_id,
            date_read(created_at),
            optional_date_read(expires_at),
            optional_date_read(resolved_at),
            resolved_by,
            resolved_reason,
            resolved_proof,
            propagate,
            metadata,
        ),
{
    let created = parse_rfc3339(created_at);
    let expires = read_optional_date(expires_at);
    let resolved = read_optional_date(resolved_at);
    pg_taint_from_read_columns(
        id,
        path,
        name,
        kind,
        effect,
        severity,
        reason,
        agent_id,
        commit_id,
        created,
        expires,
        resolved,
        resolved_by,
        resolved_reason,
        resolved_proof,
        propagate,
        metadata,
    )
}

/// What an update of a tenant's reminders row comes to, from what
/// executing the statement gave (the number of rows changed, or the
/// driver's message): a backend error for a failure or for a row that is
/// not there, else done.
pub fn pg_update_rows(id: &str, executed: Result<u64, String>) -> (r: Result<(), StorageError>)
    ensures
        match executed {
            Err(m) => r matches Err(StorageError::Backend(t)) && t@ == "update reminder: "@ + m@,
            Ok(n) => if n == 0 {
                r matches Err(StorageError::Backend(t)) && t@ == "reminder "@ + id@ + " not found"@
            } else {
                r is Ok
            },
        },
{
    match executed {
        Err(m) => Err(StorageError::Backend(message("update reminder: ", m.as_str()))),
        Ok(n) => {
            if n == 0 {
                let mut t = message("reminder ", id);
                t.append(" not found");
                Err(StorageError::Backend(t))
            } else {
                Ok(())
            }
        },
    }
}

/// How the reminder store reports a backend error `message` from an
/// update of reminder `id`: the error's text is `storage backend error: `
/// and the message; when that text mentions `not found` the reminder is
/// reported not found, else the text is a store error.
pub fn pg_update_error(id: &str, message: &str) -> (r: ReminderError)
    ensures
        ({
            let text = "storage backend error: "@ + message@;
            if seq_contains(text, "not found"@) {
                r matches ReminderError::NotFound(x) && x@ == id@
            } else {
                r matches ReminderError::Store(t) && t@ == text
            }
        }),
{
    let text = crate::storage::codec::message("storage backend error: ", message);
    if str_contains(text.as_str(), "not found") {
        ReminderError::NotFound(owned(id))
    } else {
        ReminderError::Store(text)
    }
}

/// A tenant's reminder listing query for a filter on one field: the
/// tenant is `$1` and the field takes `$2`; status and author are
/// compared for equality, priority and due time bounded from above
/// (more urgent reminders have smaller numbers). Rows come most urgent
/// first, then soonest due.
pub proof fn pg_reminder_listing_single_filters(f: ReminderFilter)
    ensures
        f.status is None && f.priority_at_most is None && f.created_by is None && f.due_before is None
            ==> pg_reminder_list_query(f)
            == "SELECT * FROM reminders WHERE tenant_id = $1 ORDER BY priority ASC, due_at ASC"@,
        f.status is Some && f.priority_at_most is None && f.created_by is None && f.due_before is None
            ==> pg_reminder_list_query(f)
            == "SELECT * FROM reminders WHERE tenant_id = $1 AND status = $2 ORDER BY priority ASC, due_at ASC"@,
        f.status is None && f.priority_at_most is Some && f.created_by is None && f.due_before is None
            ==> pg_reminder_list_query(f)
            == "SELECT * FROM reminders WHERE tenant_id = $1 AND priority <= $2 ORDER BY priority ASC, due_at ASC"@,
        f.status is None && f.priority_at_most is None && f.created_by is Some && f.due_before is None
            ==> pg_reminder_list_query(f)
            == "SELECT * FROM reminders WHERE tenant_id = $1 AND created_by = $2 ORDER BY priority ASC, due_at ASC"@,
        f.status is None && f.priority_at_most is None && f.created_by is None && f.due_before is Some
            ==> pg_reminder_list_query(f)
            == "SELECT * FROM reminders WHERE tenant_id = $1 AND due_at <= $2 ORDER BY priority ASC, due_at ASC"@,
{
    let h = "SELECT * FROM reminders WHERE tenant_id = $1"@;
    let o = " ORDER BY priority ASC, due_at ASC"@;
    let e = Seq::<char>::empty();
    let two = decimal(2);
    assert(two == seq!['2']);
    reveal_strlit("SELECT * FROM reminders WHERE tenant_id = $1");
    reveal_strlit(" ORDER BY priority ASC, due_at ASC");
    reveal_strlit(" AND status = $");
    reveal_strlit(" AND priority <= $");
    reveal_strlit(" AND created_by = $");
    reveal_strlit(" AND due_at <= $");
    reveal_strlit("SELECT * FROM reminders WHERE tenant_id = $1 ORDER BY priority ASC, due_at ASC");
    reveal_strlit(
        "SELECT * FROM reminders WHERE tenant_id = $1 AND status = $2 ORDER BY priority ASC, due_at ASC",
    );
    reveal_strlit(
        "SELECT * FROM reminders WHERE tenant_id = $1 AND priority <= $2 ORDER BY priority ASC, due_at ASC",
    );
    reveal_strlit(
        "SELECT * FROM reminders WHERE tenant_id = $1 AND created_by = $2 ORDER BY priority ASC, due_at ASC",
    );
    reveal_strlit(
        "SELECT * FROM reminders WHERE tenant_id = $1 AND due_at <= $2 ORDER BY priority ASC, due_at ASC",
    );
    assert(h + e + e + e + e + o
        =~= "SELECT * FROM reminders WHERE tenant_id = $1 ORDER BY priority ASC, due_at ASC"@);
    assert(h + (" AND status = $"@ + two) + e + e + e + o
        =~= "SELECT * FROM reminders WHERE tenant_id = $1 AND status = $2 ORDER BY priority ASC, due_at ASC"@);
    assert(h + e + (" AND priority <= $"@ + two) + e + e + o
        =~= "SELECT * FROM reminders WHERE tenant_id = $1 AND priority <= $2 ORDER BY priority ASC, due_at ASC"@);
    assert(h + e + e + (" AND created_by = $"@ + two) + e + o
        =~= "SELECT * FROM reminders WHERE tenant_id = $1 AND created_by = $2 ORDER BY priority ASC, due_at ASC"@);
    assert(h + e + e + e + (" AND due_at <= $"@ + two) + o
        =~= "SELECT * FROM reminders WHERE tenant_id = $1 AND due_at <= $2 ORDER BY priority ASC, due_at ASC"@);
}

} // verus!
