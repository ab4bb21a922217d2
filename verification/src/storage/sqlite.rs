//! How the SQLite backend stores taint and reminder enums (as text, and
//! reminder priorities as their urgency number), and the listing queries
//! it sends for a filter.
use vstd::prelude::*;

use crate::reminders::error::ReminderError;
use crate::reminders::schedule::Schedule;
use crate::reminders::types::{
    ExecutionRecord, Priority, Reminder, ReminderFilter, ReminderRef, ReminderStatus,
};
use crate::storage::columns::{
    as_date_read, as_optional_date_read, date_read, optional_date_read, read_optional_date,
    first_of, json_failure, reminder_column_failure, reminder_columns, reminder_holds_row,
    taint_date_failure, taint_dates, taint_holds_row, DateRead,
};
use crate::storage::codec::{
    effect_str, effect_text, kind_str, kind_text, message, parse_effect, parse_kind,
    parse_priority, parse_severity, parse_status, priority_of, severity_str, severity_text,
    status_str, status_text,
};
use crate::storage::traits::StorageError;
use crate::storage::memory::{trim_slashes, trim_trailing_slashes};
use crate::taint::types::{Taint, TaintEffect, TaintKind, TaintMetadata, TaintSeverity};
use crate::text::{occurs_at, owned, push_signed_decimal, seq_contains, signed_decimal};
use crate::time::{parse_rfc3339, Timestamp};

verus! {

pub fn kind_to_str(k: TaintKind) -> (r: &'static str)
    ensures
        r@ == kind_text(k),
{
    kind_str(k)
}

/// The kind stored as `s`; an unknown text is a backend error naming it.
pub fn kind_from_str(s: &str) -> (r: Result<TaintKind, StorageError>)
    ensures
        match r {
            Ok(k) => kind_text(k) == s@,
            Err(e) => (forall|k: TaintKind| #[trigger] kind_text(k) != s@) && (e matches StorageError::Backend(m)
                && m@ == "unknown taint kind: "@ + s@),
        },
{
    match parse_kind(s) {
        Some(k) => Ok(k),
        None => Err(StorageError::Backend(message("unknown taint kind: ", s))),
    }
}

pub fn effect_to_str(e: TaintEffect) -> (r: &'static str)
    ensures
        r@ == effect_text(e),
{
    effect_str(e)
}

/// The effect stored as `s`; an unknown text is a backend error naming
/// it.
pub fn effect_from_str(s: &str) -> (r: Result<TaintEffect, StorageError>)
    ensures
        match r {
            Ok(e) => effect_text(e) == s@,
            Err(e) => (forall|x: TaintEffect| #[trigger] effect_text(x) != s@) && (e matches StorageError::Backend(m)
                && m@ == "unknown taint effect: "@ + s@),
        },
{
    match parse_effect(s) {
        Some(e) => Ok(e),
        None => Err(StorageError::Backend(message("unknown taint effect: ", s))),
    }
}

pub fn severity_to_str(s: TaintSeverity) -> (r: &'static str)
    ensures
        r@ == severity_text(s),
{
    severity_str(s)
}

/// The severity stored as `s`; an unknown text is a backend error naming
/// it.
pub fn severity_from_str(s: &str) -> (r: Result<TaintSeverity, StorageError>)
    ensures
        match r {
            Ok(v) => severity_text(v) == s@,
            Err(e) => (forall|x: TaintSeverity| #[trigger] severity_text(x) != s@) && (e matches StorageError::Backend(m)
                && m@ == "unknown taint severity: "@ + s@),
        },
{
    match parse_severity(s) {
        Some(v) => Ok(v),
        None => Err(StorageError::Backend(message("unknown taint severity: ", s))),
    }
}

pub fn reminder_status_to_str(s: ReminderStatus) -> (r: &'static str)
    ensures
        r@ == status_text(s),
{
    status_str(s)
}

/// The reminder status stored as `s`; an unknown text is a store error
/// naming it.
pub fn reminder_status_from_str(s: &str) -> (r: Result<ReminderStatus, ReminderError>)
    ensures
        match r {
            Ok(v) => status_text(v) == s@,
            Err(e) => (forall|x: ReminderStatus| #[trigger] status_text(x) != s@) && (e matches ReminderError::Store(m)
                && m@ == "unknown reminder status: "@ + s@),
        },
{
    match parse_status(s) {
        Some(v) => Ok(v),
        None => Err(ReminderError::Store(message("unknown reminder status: ", s))),
    }
}

/// A priority is stored as its urgency number.
pub fn priority_to_i64(p: Priority) -> (r: i64)
    ensures
        r == p.number(),
{
    p.as_u8() as i64
}

/// The priority stored as `n`; any other number is a store error naming
/// it.
pub fn priority_from_i64(n: i64) -> (r: Result<Priority, ReminderError>)
    ensures
        match r {
            Ok(p) => priority_of(n as int) == Some(p),
            Err(e) => priority_of(n as int) is None && (e matches ReminderError::Store(m)
                && m@ == "unknown priority value: "@ + crate::text::signed_decimal(n as int)),
        },
{
    match parse_priority(n) {
        Some(p) => Ok(p),
        None => {
            let mut m = crate::text::owned("unknown priority value: ");
            crate::text::push_signed_decimal(&mut m, n);
            Err(ReminderError::Store(m))
        },
    }
}

/// `text` when `present`, else nothing.
pub open spec fn clause(present: bool, text: Seq<char>) -> Seq<char> {
    if present {
        text
    } else {
        Seq::empty()
    }
}

/// The query that lists reminders for `f`: the filters SQL can test
/// (status, priority, author, due time) as named parameters, most urgent
/// first. References and tags are checked on the rows that come back.
pub open spec fn reminder_list_query(f: ReminderFilter) -> Seq<char> {
    "SELECT * FROM reminders WHERE 1=1"@ + clause(f.status is Some, " AND status = :status"@)
        + clause(f.priority_at_most is Some, " AND priority <= :priority"@) + clause(
        f.created_by is Some,
        " AND created_by = :created_by"@,
    ) + clause(f.due_before is Some, " AND due_at <= :due_before"@)
        + " ORDER BY priority ASC, due_at ASC"@
}

/// The SQL text of the reminder listing for `filter`.
pub fn reminder_list_sql(filter: &ReminderFilter) -> (r: String)
    ensures
        r@ == reminder_list_query(*filter),
{
    let mut sql = owned("SELECT * FROM reminders WHERE 1=1");
    let ghost s0 = sql@;
    if filter.status.is_some() {
        sql.append(" AND status = :status");
    }
    let ghost s1 = sql@;
    if filter.priority_at_most.is_some() {
        sql.append(" AND priority <= :priority");
    }
    let ghost s2 = sql@;
    if filter.created_by.is_some() {
        sql.append(" AND created_by = :created_by");
    }
    let ghost s3 = sql@;
    if filter.due_before.is_some() {
        sql.append(" AND due_at <= :due_before");
    }
    let ghost s4 = sql@;
    sql.append(" ORDER BY priority ASC, due_at ASC");
    proof {
        assert(s1 =~= s0 + clause(filter.status is Some, " AND status = :status"@));
        assert(s2 =~= s1 + clause(filter.priority_at_most is Some, " AND priority <= :priority"@));
        assert(s3 =~= s2 + clause(filter.created_by is Some, " AND created_by = :created_by"@));
        assert(s4 =~= s3 + clause(filter.due_before is Some, " AND due_at <= :due_before"@));
        assert(sql@ =~= reminder_list_query(*filter));
    }
    sql
}

/// The query that lists taints: unresolved ones unless asked otherwise,
/// at or under a path when `:p` / `:plike` are bound, of one kind when
/// `:k` is, newest first.
pub open spec fn taint_list_query(has_prefix: bool, has_kind: bool, include_resolved: bool) -> Seq<char> {
    "SELECT * FROM taints WHERE 1=1"@ + clause(!include_resolved, " AND resolved_at IS NULL"@)
        + clause(has_prefix, " AND (path = :p OR path LIKE :plike)"@) + clause(
        has_kind,
        " AND kind = :k"@,
    ) + " ORDER BY created_at DESC"@
}

/// The SQL text of the taint listing for these filters.
pub fn taint_list_sql(path_prefix: Option<&str>, kind: Option<TaintKind>, include_resolved: bool) -> (r:
    String)
    ensures
        r@ == taint_list_query(path_prefix is Some, kind is Some, include_resolved),
{
    let mut sql = owned("SELECT * FROM taints WHERE 1=1");
    let ghost s0 = sql@;
    if !include_resolved {
        sql.append(" AND resolved_at IS NULL");
    }
    let ghost s1 = sql@;
    if path_prefix.is_some() {
        sql.append(" AND (path = :p OR path LIKE :plike)");
    }
    let ghost s2 = sql@;
    if kind.is_some() {
        sql.append(" AND kind = :k");
    }
    let ghost s3 = sql@;
    sql.append(" ORDER BY created_at DESC");
    proof {
        assert(s1 =~= s0 + clause(!include_resolved, " AND resolved_at IS NULL"@));
        assert(s2 =~= s1 + clause(path_prefix is Some, " AND (path = :p OR path LIKE :plike)"@));
        assert(s3 =~= s2 + clause(kind is Some, " AND kind = :k"@));
        assert(sql@ =~= taint_list_query(path_prefix is Some, kind is Some, include_resolved));
    }
    sql
}

/// The values bound to `:p` and `:plike` for a path prefix: the prefix
/// without trailing slashes, and that followed by `/%`.
pub fn prefix_params(p: &str) -> (r: (String, String))
    ensures
        r.0@ == trim_slashes(p@),
        r.1@ == trim_slashes(p@) + "/%"@,
{
    let t = trim_trailing_slashes(p);
    let mut like = t.clone();
    like.append("/%");
    (t, like)
}

/// Why a reminders row read back from SQLite does not decode: the first
/// failure in the order the columns are checked, status, priority, then
/// the dates and the JSON columns. A bad status or priority is reported
/// with the text of the store error its codec gives.
pub open spec fn sqlite_reminder_failure(
    status: Seq<char>,
    priority: int,
    commands: Result<Vec<String>, String>,
    refs: Result<Vec<ReminderRef>, String>,
    due_at: DateRead,
    schedule: Option<Result<Schedule, String>>,
    created_at: DateRead,
    snoozed_until: Option<DateRead>,
    executions: Result<Vec<ExecutionRecord>, String>,
    tags: Result<Vec<String>, String>,
) -> Option<Seq<char>> {
    if forall|v: ReminderStatus| #[trigger] status_text(v) != status {
        Some("storage error: unknown reminder status: "@ + status)
    } else if priority_of(priority) is None {
        Some("storage error: unknown priority value: "@ + signed_decimal(priority))
    } else {
        reminder_column_failure(
            commands,
            refs,
            due_at,
            schedule,
            created_at,
            snoozed_until,
            executions,
            tags,
        )
    }
}

/// `r` is what a SQLite reminders row decodes to: the reminder holding
/// the row when nothing fails (autonomous when the stored flag is not 0),
/// else the report of the first failure.
pub open spec fn sqlite_reminder_decoded(
    r: Result<Reminder, String>,
    id: String,
    title: String,
    instructions: String,
    commands: Result<Vec<String>, String>,
    refs: Result<Vec<ReminderRef>, String>,
    priority: i64,
    due_at: DateRead,
    schedule: Option<Result<Schedule, String>>,
    autonomous: i64,
    created_by: String,
    created_at: DateRead,
    status: Seq<char>,
    snoozed_until: Option<DateRead>,
    executions: Result<Vec<ExecutionRecord>, String>,
    tags: Result<Vec<String>, String>,
) -> bool {
    let failure = sqlite_reminder_failure(
        status,
        priority as int,
        commands,
        refs,
        due_at,
        schedule,
        created_at,
        snoozed_until,
        executions,
        tags,
    );
    match r {
        Ok(x) => failure is None && reminder_holds_row(
            x,
            id,
            title,
            instructions,
            commands,
            refs,
            priority as int,
            due_at,
            schedule,
            autonomous != 0,
            created_by,
            created_at,
            status,
            snoozed_until,
            executions,
            tags,
        ),
        Err(m) => failure == Some(m@),
    }
}

/// Decodes a SQLite reminders row whose date columns have been read and
/// whose JSON columns have been parsed; an error is the text reported for
/// the first column that failed.
pub fn reminder_from_read_columns(
    id: String,
    title: String,
    instructions: String,
    commands: Result<Vec<String>, String>,
    refs: Result<Vec<ReminderRef>, String>,
    priority: i64,
    due_at: Result<Timestamp, String>,
    schedule: Option<Result<Schedule, String>>,
    autonomous: i64,
    created_by: String,
    created_at: Result<Timestamp, String>,
    status: &str,
    snoozed_until: Option<Result<Timestamp, String>>,
    executions: Result<Vec<ExecutionRecord>, String>,
    tags: Result<Vec<String>, String>,
) -> (r: Result<Reminder, String>)
    ensures
        sqlite_reminder_decoded(
            r,
            id,
            title,
            instructions,
            commands,
            refs,
            priority,
            as_date_read(due_at),
            schedule,
            autonomous,
            created_by,
            as_date_read(created_at),
            status@,
            as_optional_date_read(snoozed_until),
            executions,
            tags,
        ),
{
    let status = match parse_status(status) {
        Some(v) => v,
        None => {
            return Err(message("storage error: unknown reminder status: ", status));
        },
    };
    let priority = match parse_priority(priority) {
        Some(p) => p,
        None => {
            let mut m = owned("storage error: unknown priority value: ");
            push_signed_decimal(&mut m, priority);
            return Err(m);
        },
    };
    let c = match reminder_columns(
        commands,
        refs,
        due_at,
        schedule,
        created_at,
        snoozed_until,
        executions,
        tags,
    ) {
        Ok(c) => c,
        Err(m) => {
            return Err(m);
        },
    };
    Ok(
        Reminder {
            id,
            title,
            instructions,
            commands: c.0,
            refs: c.1,
            priority,
            due_at: c.2,
            schedule: c.3,
            autonomous: autonomous != 0,
            created_by,
            created_at: c.4,
            status,
            snoozed_until: c.5,
            executions: c.6,
            tags: c.7,
        },
    )
}

/// Decodes a reminders row as SQLite returns it: the dates as RFC 3339
/// texts, the JSON columns parsed; an error is the text reported for the
/// first column that failed.
pub fn reminder_from_columns(
    id: String,
    title: String,
    instructions: String,
    commands: Result<Vec<String>, String>,
    refs: Result<Vec<ReminderRef>, String>,
    priority: i64,
    due_at: &str,
    schedule: Option<Result<Schedule, String>>,
    autonomous: i64,
    created_by: String,
    created_at: &str,
    status: &str,
    snoozed_until: Option<&str>,
    executions: Result<Vec<ExecutionRecord>, String>,
    tags: Result<Vec<String>, String>,
) -> (r: Result<Reminder, String>)
    ensures
        sqlite_reminder_decoded(
            r,
            id,
            title,
            instructions,
            commands,
            refs,
            priority,
            date_read(due_at),
            schedule,
            autonomous,
            created_by,
            date_read(created_at),
            status@,
            optional_date_read(snoozed_until),
            executions,
            tags,
        ),
{
    let due = parse_rfc3339(due_at);
    let created = parse_rfc3339(created_at);
    let snoozed = read_optional_date(snoozed_until);
    reminder_from_read_columns(
        id,
        title,
        instructions,
        commands,
        refs,
        priority,
        due,
        schedule,
        autonomous,
        created_by,
        created,
        status,
        snoozed,
        executions,
        tags,
    )
}

/// Why a taints row read back from SQLite does not decode: the first
/// failure in the order the columns are checked, the metadata, the dates,
/// then kind, effect and severity. A bad enum text is reported with the
/// text of the backend error its codec gives.
pub open spec fn sqlite_taint_failure(
    kind: Seq<char>,
    effect: Seq<char>,
    severity: Seq<char>,
    created_at: DateRead,
    expires_at: Option<DateRead>,
    resolved_at: Option<DateRead>,
    metadata: Result<TaintMetadata, String>,
) -> Option<Seq<char>> {
    first_of(
        json_failure("taint metadata: "@, metadata),
        first_of(
            taint_date_failure(created_at, expires_at, resolved_at),
            if forall|k: TaintKind| #[trigger] kind_text(k) != kind {
                Some("storage backend error: unknown taint kind: "@ + kind)
            } else if forall|e: TaintEffect| #[trigger] effect_text(e) != effect {
                Some("storage backend error: unknown taint effect: "@ + effect)
            } else if forall|v: TaintSeverity| #[trigger] severity_text(v) != severity {
                Some("storage backend error: unknown taint severity: "@ + severity)
            } else {
                None
            },
        ),
    )
}

/// `r` is what a SQLite taints row decodes to: the taint holding the row
/// when nothing fails (propagating when the stored flag is not 0), else
/// the report of the first failure.
pub open spec fn sqlite_taint_decoded(
    r: Result<Taint, String>,
    id: String,
    path: String,
    name: String,
    kind: Seq<char>,
    effect: Seq<char>,
    severity: Seq<char>,
    reason: String,
    agent_id: String,
    commit_id: String,
    created_at: DateRead,
    expires_at: Option<DateRead>,
    resolved_at: Option<DateRead>,
    resolved_by: Option<String>,
    resolved_reason: Option<String>,
    resolved_proof: Option<String>,
    propagate: i64,
    metadata: Result<TaintMetadata, String>,
) -> bool {
    let failure = sqlite_taint_failure(
        kind,
        effect,
        severity,
        created_at,
        expires_at,
        resolved_at,
        metadata,
    );
    match r {
        Ok(x) => failure is None && taint_holds_row(
            x,
            id,
            path,
            name,
            kind,
            effect,
            severity,
            reason,
            agent_id,
            commit_id,
            created_at,
            expires_at,
            resolved_at,
            resolved_by,
            resolved_reason,
            resolved_proof,
            propagate != 0,
            metadata,
        ),
        Err(m) => failure == Some(m@),
    }
}

/// Decodes a SQLite taints row whose date columns have been read and
/// whose metadata has been parsed; an error is the text reported for the
/// first column that failed.
pub fn taint_from_read_columns(
    id: String,
    path: String,
    name: String,
    kind: &str,
    effect: &str,
    severity: &str,
    reason: String,
    agent_id: String,
    commit_id: String,
    created_at: Result<Timestamp, String>,
    expires_at: Option<Result<Timestamp, String>>,
    resolved_at: Option<Result<Timestamp, String>>,
    resolved_by: Option<String>,
    resolved_reason: Option<String>,
    resolved_proof: Option<String>,
    propagate: i64,
    metadata: Result<TaintMetadata, String>,
) -> (r: Result<Taint, String>)
    ensures
        sqlite_taint_decoded(
            r,
            id,
            path,
            name,
            kind@,
            effect@,
            severity@,
            reason,
            agent_id,
            commit_id,
            as_date_read(created_at),
            as_optional_date_read(expires_at),
            as_optional_date_read(resolved_at),
            resolved_by,
            resolved_reason,
            resolved_proof,
            propagate,
            metadata,
        ),
{
    let metadata = match metadata {
        Ok(m) => m,
        Err(e) => {
            return Err(message("taint metadata: ", e.as_str()));
        },
    };
    let dates = match taint_dates(created_at, expires_at, resolved_at) {
        Ok(d) => d,
        Err(m) => {
            return Err(m);
        },
    };
    let kind = match parse_kind(kind) {
        Some(k) => k,
        None => {
            return Err(message("storage backend error: unknown taint kind: ", kind));
        },
    };
    let effect = match parse_effect(effect) {
        Some(e) => e,
        None => {
            return Err(message("storage backend error: unknown taint effect: ", effect));
        },
    };
    let severity = match parse_severity(severity) {
        Some(v) => v,
        None => {
            return Err(message("storage backend error: unknown taint severity: ", severity));
        },
    };
    Ok(
        Taint {
            id,
            path,
            name,
            kind,
            effect,
            severity,
            reason,
            agent_id,
            commit_id,
            created_at: dates.0,
            expires_at: dates.1,
            resolved_at: dates.2,
            resolved_by,
            resolved_reason,
            resolved_proof,
            propagate: propagate != 0,
            metadata,
        },
    )
}

/// Decodes a taints row as SQLite returns it: the dates as RFC 3339
/// texts, the metadata parsed; an error is the text reported for the
/// first column that failed.
pub fn taint_from_columns(
    id: String,
    path: String,
    name: String,
    kind: &str,
    effect: &str,
    severity: &str,
    reason: String,
    agent_id: String,
    commit_id: String,
    created_at: &str,
    expires_at: Option<&str>,
    resolved_at: Option<&str>,
    resolved_by: Option<String>,
    resolved_reason: Option<String>,
    resolved_proof: Option<String>,
    propagate: i64,
    metadata: Result<TaintMetadata, String>,
) -> (r: Result<Taint, String>)
    ensures
        sqlite_taint_decoded(
            r,
            id,
            path,
            name,
            kind@,
            effect@,
            severity@,
            reason,
            agent_id,
            commit_id,
            date_read(created_at),
            optional_date_read(expires_at),
            optional_date_read(resolved_at),
            resolved_by,
            resolved_reason,
            resolved_proof,
            propagate,
            metadata,
        ),
{
    let created = parse_rfc3339(created_at);
    let expires = read_optional_date(expires_at);
    let resolved = read_optional_date(resolved_at);
    taint_from_read_columns(
        id,
        path,
        name,
        kind,
        effect,
        severity,
        reason,
        agent_id,
        commit_id,
        created,
        expires,
        resolved,
        resolved_by,
        resolved_reason,
        resolved_proof,
        propagate,
        metadata,
    )
}

/// What an update of a reminders row comes to, from what executing the
/// statement gave (the number of rows changed, or the driver's message):
/// a store error carrying the message, `NotFound` when no row had the id,
/// else done.
pub fn update_outcome(id: &str, executed: Result<usize, String>) -> (r: Result<(), ReminderError>)
    ensures
        match executed {
            Err(m) => r matches Err(ReminderError::Store(t)) && t@ == "update reminder: "@ + m@,
            Ok(n) => if n == 0 {
                r matches Err(ReminderError::NotFound(x)) && x@ == id@
            } else {
                r is Ok
            },
        },
{
    match executed {
        Err(m) => Err(ReminderError::Store(message("update reminder: ", m.as_str()))),
        Ok(n) => {
            if n == 0 {
                Err(ReminderError::NotFound(owned(id)))
            } else {
                Ok(())
            }
        },
    }
}

/// The reminder listing query for a filter on one field: status is
/// compared for equality, priority bounded from above (`priority <=`, so
/// more urgent reminders, with smaller numbers, pass), the author
/// compared for equality and the due time bounded from above; with no
/// filter every row is listed. Rows always come most urgent first, then
/// soonest due.
pub proof fn reminder_listing_single_filters(f: ReminderFilter)
    ensures
        f.status is None && f.priority_at_most is None && f.created_by is None && f.due_before is None
            ==> reminder_list_query(f)
            == "SELECT * FROM reminders WHERE 1=1 ORDER BY priority ASC, due_at ASC"@,
        f.status is Some && f.priority_at_most is None && f.created_by is None && f.due_before is None
            ==> reminder_list_query(f)
            == "SELECT * FROM reminders WHERE 1=1 AND status = :status ORDER BY priority ASC, due_at ASC"@,
        f.status is None && f.priority_at_most is Some && f.created_by is None && f.due_before is None
            ==> reminder_list_query(f)
            == "SELECT * FROM reminders WHERE 1=1 AND priority <= :priority ORDER BY priority ASC, due_at ASC"@,
        f.status is None && f.priority_at_most is None && f.created_by is Some && f.due_before is None
            ==> reminder_list_query(f)
            == "SELECT * FROM reminders WHERE 1=1 AND created_by = :created_by ORDER BY priority ASC, due_at ASC"@,
        f.status is None && f.priority_at_most is None && f.created_by is None && f.due_before is Some
            ==> reminder_list_query(f)
            == "SELECT * FROM reminders WHERE 1=1 AND due_at <= :due_before ORDER BY priority ASC, due_at ASC"@,
{
    reveal_strlit("SELECT * FROM reminders WHERE 1=1");
    reveal_strlit(" AND status = :status");
    reveal_strlit(" AND priority <= :priority");
    reveal_strlit(" AND created_by = :created_by");
    reveal_strlit(" AND due_at <= :due_before");
    reveal_strlit(" ORDER BY priority ASC, due_at ASC");
    reveal_strlit("SELECT * FROM reminders WHERE 1=1 ORDER BY priority ASC, due_at ASC");
    reveal_strlit(
        "SELECT * FROM reminders WHERE 1=1 AND status = :status ORDER BY priority ASC, due_at ASC",
    );
    reveal_strlit(
        "SELECT * FROM reminders WHERE 1=1 AND priority <= :priority ORDER BY priority ASC, due_at ASC",
    );
    reveal_strlit(
        "SELECT * FROM reminders WHERE 1=1 AND created_by = :created_by ORDER BY priority ASC, due_at ASC",
    );
    reveal_strlit(
        "SELECT * FROM reminders WHERE 1=1 AND due_at <= :due_before ORDER BY priority ASC, due_at ASC",
    );
    let e = Seq::<char>::empty();
    assert("SELECT * FROM reminders WHERE 1=1"@ + e + e + e + e + " ORDER BY priority ASC, due_at ASC"@
        =~= "SELECT * FROM reminders WHERE 1=1 ORDER BY priority ASC, due_at ASC"@);
    assert("SELECT * FROM reminders WHERE 1=1"@ + " AND status = :status"@ + e + e + e
        + " ORDER BY priority ASC, due_at ASC"@
        =~= "SELECT * FROM reminders WHERE 1=1 AND status = :status ORDER BY priority ASC, due_at ASC"@);
    assert("SELECT * FROM reminders WHERE 1=1"@ + e + " AND priority <= :priority"@ + e + e
        + " ORDER BY priority ASC, due_at ASC"@
        =~= "SELECT * FROM reminders WHERE 1=1 AND priority <= :priority ORDER BY priority ASC, due_at ASC"@);
    assert("SELECT * FROM reminders WHERE 1=1"@ + e + e + " AND created_by = :created_by"@ + e
        + " ORDER BY priority ASC, due_at ASC"@
        =~= "SELECT * FROM reminders WHERE 1=1 AND created_by = :created_by ORDER BY priority ASC, due_at ASC"@);
    assert("SELECT * FROM reminders WHERE 1=1"@ + e + e + e + " AND due_at <= :due_before"@
        + " ORDER BY priority ASC, due_at ASC"@
        =~= "SELECT * FROM reminders WHERE 1=1 AND due_at <= :due_before ORDER BY priority ASC, due_at ASC"@);
}

/// Whatever else a filter sets, the reminder listing query tests each
/// field the filter sets with its own clause (status and author for
/// equality, priority and due time bounded from above) and orders the
/// rows most urgent first, then soonest due.
pub proof fn reminder_listing_clauses(f: ReminderFilter)
    ensures
        f.status is Some ==> seq_contains(reminder_list_query(f), " AND status = :status"@),
        f.priority_at_most is Some ==> seq_contains(
            reminder_list_query(f),
            " AND priority <= :priority"@,
        ),
        f.created_by is Some ==> seq_contains(
            reminder_list_query(f),
            " AND created_by = :created_by"@,
        ),
        f.due_before is Some ==> seq_contains(reminder_list_query(f), " AND due_at <= :due_before"@),
        seq_contains(reminder_list_query(f), " ORDER BY priority ASC, due_at ASC"@),
{
    let a = "SELECT * FROM reminders WHERE 1=1"@;
    let c1 = clause(f.status is Some, " AND status = :status"@);
    let c2 = clause(f.priority_at_most is Some, " AND priority <= :priority"@);
    let c3 = clause(f.created_by is Some, " AND created_by = :created_by"@);
    let c4 = clause(f.due_before is Some, " AND due_at <= :due_before"@);
    let o = " ORDER BY priority ASC, due_at ASC"@;
    let q = reminder_list_query(f);
    assert(q == a + c1 + c2 + c3 + c4 + o);
    let i1 = a.len() as int;
    let i2 = i1 + c1.len();
    let i3 = i2 + c2.len();
    let i4 = i3 + c3.len();
    let i5 = i4 + c4.len();
    assert(q.subrange(i1, i1 + c1.len()) =~= c1);
    assert(q.subrange(i2, i2 + c2.len()) =~= c2);
    assert(q.subrange(i3, i3 + c3.len()) =~= c3);
    assert(q.subrange(i4, i4 + c4.len()) =~= c4);
    assert(q.subrange(i5, i5 + o.len()) =~= o);
    if f.status is Some {
        assert(occurs_at(q, " AND status = :status"@, i1));
    }
    if f.priority_at_most is Some {
        assert(occurs_at(q, " AND priority <= :priority"@, i2));
    }
    if f.created_by is Some {
        assert(occurs_at(q, " AND created_by = :created_by"@, i3));
    }
    if f.due_before is Some {
        assert(occurs_at(q, " AND due_at <= :due_before"@, i4));
    }
    assert(occurs_at(q, o, i5));
}

} // verus!
