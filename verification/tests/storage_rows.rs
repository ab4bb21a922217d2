use agentstategraph_substrate::reminders::schedule::Schedule;
use agentstategraph_substrate::reminders::types::{
    ExecutionRecord, Priority, Reminder, ReminderRef, ReminderStatus,
};
use agentstategraph_substrate::reminders::error::ReminderError;
use agentstategraph_substrate::reminders::manager::execution_target;
use agentstategraph_substrate::reminders::types::ExecutionResult;
use agentstategraph_substrate::storage::postgres::{
    pg_reminder_from_columns, pg_taint_from_columns, pg_taint_list_sql, pg_taint_list_values,
    pg_update_error, pg_update_rows,
};
use agentstategraph_substrate::storage::sqlite::{
    reminder_from_columns, taint_from_columns, update_outcome,
};
use agentstategraph_substrate::text::str_contains;
use agentstategraph_substrate::storage::traits::StorageError;
use agentstategraph_substrate::taint::types::{
    Taint, TaintEffect, TaintKind, TaintMetadata, TaintSeverity,
};

const QN: &str = "SELECT * FROM taints WHERE tenant_id = $1\n                              ORDER BY created_at DESC";
const QU: &str = "SELECT * FROM taints\n                              WHERE tenant_id = $1 AND resolved_at IS NULL\n                              ORDER BY created_at DESC";
const QP: &str = "SELECT * FROM taints\n                              WHERE tenant_id = $1 AND (path = $2 OR path LIKE $3)\n                              ORDER BY created_at DESC";
const QPU: &str = "SELECT * FROM taints\n                              WHERE tenant_id = $1 AND resolved_at IS NULL\n                                AND (path = $2 OR path LIKE $3)\n                              ORDER BY created_at DESC";
const QK: &str = "SELECT * FROM taints\n                              WHERE tenant_id = $1 AND kind = $2\n                              ORDER BY created_at DESC";
const QKU: &str = "SELECT * FROM taints\n                              WHERE tenant_id = $1 AND resolved_at IS NULL AND kind = $2\n                              ORDER BY created_at DESC";
const QKP: &str = "SELECT * FROM taints\n                              WHERE tenant_id = $1 AND kind = $2\n                                AND (path = $3 OR path LIKE $4)\n                              ORDER BY created_at DESC";
const QKPU: &str = "SELECT * FROM taints\n                              WHERE tenant_id = $1 AND resolved_at IS NULL AND kind = $2\n                                AND (path = $3 OR path LIKE $4)\n                              ORDER BY created_at DESC";
const NINE_UTC: i64 = 1709629200000;

fn sqlite_reminder(
    status: &str,
    priority: i64,
    due_at: &str,
    created_at: &str,
    snoozed_until: Option<&str>,
    commands: Result<Vec<String>, String>,
    autonomous: i64,
) -> Result<Reminder, String> {
    reminder_from_columns(
        "r-1".to_string(),
        "Check the backups".to_string(),
        "Look at last night's run".to_string(),
        commands,
        Ok(Vec::<ReminderRef>::new()),
        priority,
        due_at,
        Some(Ok(Schedule::Once)),
        autonomous,
        "agent-7".to_string(),
        created_at,
        status,
        snoozed_until,
        Ok(Vec::<ExecutionRecord>::new()),
        Ok(vec!["ops".to_string()]),
    )
}

fn pg_reminder(
    status: &str,
    priority: i32,
    due_at: &str,
    tags: Result<Vec<String>, String>,
) -> Result<Reminder, StorageError> {
    pg_reminder_from_columns(
        "r-2".to_string(),
        "Rotate keys".to_string(),
        "".to_string(),
        Ok(vec!["rotate".to_string()]),
        Ok(Vec::<ReminderRef>::new()),
        priority,
        due_at,
        None,
        true,
        "agent-1".to_string(),
        "2024-03-05T10:00:00+01:00",
        status,
        None,
        Ok(Vec::<ExecutionRecord>::new()),
        tags,
    )
}

fn sqlite_taint(
    kind: &str,
    effect: &str,
    created_at: &str,
    resolved_at: Option<&str>,
    propagate: i64,
    metadata: Result<TaintMetadata, String>,
) -> Result<Taint, String> {
    taint_from_columns(
        "t-1".to_string(),
        "/cluster/nodes/a".to_string(),
        "flaky".to_string(),
        kind,
        effect,
        "high",
        "disk errors".to_string(),
        "agent-2".to_string(),
        "".to_string(),
        created_at,
        None,
        resolved_at,
        None,
        None,
        None,
        propagate,
        metadata,
    )
}

fn pg_taint(kind: &str, severity: &str, created_at: &str, metadata: Result<TaintMetadata, String>) -> Result<Taint, StorageError> {
    pg_taint_from_columns(
        "t-2".to_string(),
        "/a".to_string(),
        "n".to_string(),
        kind,
        "warn",
        severity,
        "r".to_string(),
        "agent".to_string(),
        "c-1".to_string(),
        created_at,
        Some("2024-03-06T09:00:00Z"),
        None,
        Some("agent-3".to_string()),
        None,
        None,
        true,
        metadata,
    )
}

#[test]
fn sqlite_reminder_row_decodes_every_column() {
    let r = sqlite_reminder(
        "snoozed",
        2,
        "2024-03-05T09:00:00Z",
        "2024-03-05T10:00:00+01:00",
        Some("2024-03-05T09:00:00.123456Z"),
        Ok(vec!["ls".to_string()]),
        1,
    )
    .unwrap();
    assert_eq!(r.id, "r-1");
    assert_eq!(r.title, "Check the backups");
    assert_eq!(r.commands, vec!["ls".to_string()]);
    assert_eq!(r.priority, Priority::High);
    assert_eq!(r.status, ReminderStatus::Snoozed);
    assert_eq!(r.due_at, NINE_UTC);
    assert_eq!(r.created_at, NINE_UTC);
    assert_eq!(r.snoozed_until, Some(NINE_UTC + 123));
    assert!(r.autonomous);
    assert_eq!(r.created_by, "agent-7");
    assert_eq!(r.schedule, Some(Schedule::Once));
    assert_eq!(r.tags, vec!["ops".to_string()]);
}

#[test]
fn sqlite_reminder_autonomous_flag_is_nonzero() {
    let off = sqlite_reminder("due", 3, "2024-03-05T09:00:00Z", "2024-03-05T09:00:00Z", None, Ok(vec![]), 0).unwrap();
    assert!(!off.autonomous);
    assert_eq!(off.snoozed_until, None);
    let on = sqlite_reminder("due", 3, "2024-03-05T09:00:00Z", "2024-03-05T09:00:00Z", None, Ok(vec![]), -2).unwrap();
    assert!(on.autonomous);
}

#[test]
fn sqlite_reminder_status_is_checked_first() {
    let e = sqlite_reminder("bogus", 9, "nope", "nope", None, Err("bad".to_string()), 0).unwrap_err();
    assert_eq!(e, "storage error: unknown reminder status: bogus");
}

#[test]
fn sqlite_reminder_priority_before_dates() {
    let e = sqlite_reminder("pending", 9, "nope", "nope", None, Ok(vec![]), 0).unwrap_err();
    assert_eq!(e, "storage error: unknown priority value: 9");
    let e = sqlite_reminder("pending", -3, "2024-03-05T09:00:00Z", "2024-03-05T09:00:00Z", None, Ok(vec![]), 0).unwrap_err();
    assert_eq!(e, "storage error: unknown priority value: -3");
}

#[test]
fn sqlite_reminder_date_errors_name_the_column() {
    let e = sqlite_reminder("pending", 1, "yesterday", "2024-03-05T09:00:00Z", None, Ok(vec![]), 0).unwrap_err();
    assert_eq!(e, "due_at: premature end of input");
    let e = sqlite_reminder("pending", 1, "2024-03-05T09:00:00Z", "2024-13-05T09:00:00Z", None, Ok(vec![]), 0).unwrap_err();
    assert_eq!(e, "created_at: input is out of range");
    let e = sqlite_reminder("pending", 1, "2024-03-05T09:00:00Z", "2024-03-05T09:00:00Z", Some("2024-03-05X09:00:00Z"), Ok(vec![]), 0).unwrap_err();
    assert_eq!(e, "snoozed_until: input contains invalid characters");
}

#[test]
fn sqlite_reminder_dates_before_json_columns() {
    let e = sqlite_reminder("pending", 1, "bad", "2024-03-05T09:00:00Z", None, Err("expected value at line 1 column 1".to_string()), 0).unwrap_err();
    assert_eq!(e, "due_at: premature end of input");
    let e = sqlite_reminder("pending", 1, "2024-03-05T09:00:00Z", "2024-03-05T09:00:00Z", None, Err("expected value at line 1 column 1".to_string()), 0).unwrap_err();
    assert_eq!(e, "commands: expected value at line 1 column 1");
}

#[test]
fn pg_reminder_row_decodes() {
    let r = pg_reminder("in_progress", 5, "2024-03-05T04:00:00-05:00", Ok(vec![])).unwrap();
    assert_eq!(r.priority, Priority::Minimal);
    assert_eq!(r.status, ReminderStatus::InProgress);
    assert_eq!(r.due_at, NINE_UTC);
    assert_eq!(r.created_at, NINE_UTC);
    assert!(r.autonomous);
    assert_eq!(r.schedule, None);
    assert_eq!(r.commands, vec!["rotate".to_string()]);
}

#[test]
fn pg_reminder_errors_carry_their_kind() {
    assert_eq!(
        pg_reminder("later", 0, "x", Ok(vec![])).unwrap_err(),
        StorageError::Backend("unknown reminder status: later".to_string())
    );
    assert_eq!(
        pg_reminder("due", 0, "x", Ok(vec![])).unwrap_err(),
        StorageError::Backend("unknown priority value: 0".to_string())
    );
    assert_eq!(
        pg_reminder("due", 4, "2024-03-05T09:00:00Zjunk", Ok(vec![])).unwrap_err(),
        StorageError::Serialization("due_at: trailing input".to_string())
    );
    assert_eq!(
        pg_reminder("due", 4, "2024-03-05T09:00:00Z", Err("EOF while parsing a list".to_string())).unwrap_err(),
        StorageError::Serialization("tags: EOF while parsing a list".to_string())
    );
}

#[test]
fn sqlite_taint_row_decodes() {
    let t = sqlite_taint("quarantine", "block", "2024-03-05T09:00:00Z", Some("2024-03-05T10:00:00+01:00"), 1, Ok(TaintMetadata::new())).unwrap();
    assert_eq!(t.kind, TaintKind::Quarantine);
    assert_eq!(t.effect, TaintEffect::Block);
    assert_eq!(t.severity, TaintSeverity::High);
    assert_eq!(t.created_at, NINE_UTC);
    assert_eq!(t.expires_at, None);
    assert_eq!(t.resolved_at, Some(NINE_UTC));
    assert!(t.propagate);
    assert_eq!(t.path, "/cluster/nodes/a");
    let t = sqlite_taint("taint", "warn", "2024-03-05T09:00:00Z", None, 0, Ok(TaintMetadata::new())).unwrap();
    assert!(!t.propagate);
    assert_eq!(t.resolved_at, None);
}

#[test]
fn sqlite_taint_failures_in_column_order() {
    let e = sqlite_taint("nope", "nope", "bad", None, 1, Err("invalid type: integer".to_string())).unwrap_err();
    assert_eq!(e, "taint metadata: invalid type: integer");
    let e = sqlite_taint("nope", "nope", "2024-03-05T09:00:00Z", Some("bad"), 1, Ok(TaintMetadata::new())).unwrap_err();
    assert_eq!(e, "resolved_at: premature end of input");
    let e = sqlite_taint("nope", "nope", "2024-03-05T09:00:00Z", None, 1, Ok(TaintMetadata::new())).unwrap_err();
    assert_eq!(e, "storage backend error: unknown taint kind: nope");
    let e = sqlite_taint("watch", "nope", "2024-03-05T09:00:00Z", None, 1, Ok(TaintMetadata::new())).unwrap_err();
    assert_eq!(e, "storage backend error: unknown taint effect: nope");
}

#[test]
fn pg_taint_row_decodes_and_fails_in_order() {
    let t = pg_taint("watch", "critical", "2024-03-05T09:00:00Z", Ok(TaintMetadata::new())).unwrap();
    assert_eq!(t.kind, TaintKind::Watch);
    assert_eq!(t.severity, TaintSeverity::Critical);
    assert_eq!(t.expires_at, Some(NINE_UTC + 86_400_000));
    assert_eq!(t.resolved_by, Some("agent-3".to_string()));
    assert_eq!(t.commit_id, "c-1");
    assert_eq!(
        pg_taint("x", "x", "2024-03-05", Ok(TaintMetadata::new())).unwrap_err(),
        StorageError::Serialization("created_at: premature end of input".to_string())
    );
    assert_eq!(
        pg_taint("x", "x", "2024-03-05T09:00:00Z", Err("bad".to_string())).unwrap_err(),
        StorageError::Serialization("taint metadata: bad".to_string())
    );
    assert_eq!(
        pg_taint("taint", "x", "2024-03-05T09:00:00Z", Ok(TaintMetadata::new())).unwrap_err(),
        StorageError::Backend("unknown taint severity: x".to_string())
    );
}

#[test]
fn pg_taint_listing_queries() {
    assert_eq!(pg_taint_list_sql(None, None, true), QN);
    assert_eq!(pg_taint_list_sql(None, None, false), QU);
    assert_eq!(pg_taint_list_sql(Some("/a"), None, true), QP);
    assert_eq!(pg_taint_list_sql(Some("/a"), None, false), QPU);
    assert_eq!(pg_taint_list_sql(None, Some(TaintKind::Watch), true), QK);
    assert_eq!(pg_taint_list_sql(None, Some(TaintKind::Watch), false), QKU);
    assert_eq!(pg_taint_list_sql(Some("/a"), Some(TaintKind::Watch), true), QKP);
    assert_eq!(pg_taint_list_sql(Some("/a"), Some(TaintKind::Watch), false), QKPU);
}

#[test]
fn pg_taint_listing_values() {
    assert!(pg_taint_list_values(None, None).is_empty());
    assert_eq!(pg_taint_list_values(None, Some(TaintKind::Quarantine)), vec!["quarantine".to_string()]);
    assert_eq!(
        pg_taint_list_values(Some("/cluster/"), None),
        vec!["/cluster".to_string(), "/cluster/%".to_string()]
    );
    assert_eq!(
        pg_taint_list_values(Some("/cluster//"), Some(TaintKind::Taint)),
        vec!["taint".to_string(), "/cluster".to_string(), "/cluster/%".to_string()]
    );
}

fn interval_reminder(every_seconds: u64) -> Reminder {
    reminder_from_columns(
        "r-9".to_string(),
        "Poll".to_string(),
        "".to_string(),
        Ok(vec![]),
        Ok(Vec::<ReminderRef>::new()),
        3,
        "2024-03-05T09:00:00Z",
        Some(Ok(Schedule::Interval { every_seconds })),
        1,
        "agent".to_string(),
        "2024-03-05T09:00:00Z",
        "in_progress",
        None,
        Ok(Vec::<ExecutionRecord>::new()),
        Ok(vec![]),
    )
    .unwrap()
}

#[test]
fn execution_target_passes_a_reschedulable_reminder() {
    let r = execution_target(Ok(interval_reminder(60)), ExecutionResult::Success, NINE_UTC).unwrap();
    assert_eq!(r.id, "r-9");
}

#[test]
fn execution_target_refuses_a_next_due_time_out_of_range() {
    match execution_target(Ok(interval_reminder(10_000_000_000_000)), ExecutionResult::Success, NINE_UTC) {
        Err(ReminderError::Store(m)) => assert_eq!(m, "next due time out of range"),
        other => panic!("unexpected: {:?}", other),
    }
    // A failed run is not rescheduled, so the same reminder passes.
    assert!(execution_target(Ok(interval_reminder(10_000_000_000_000)), ExecutionResult::Failed, NINE_UTC).is_ok());
}

#[test]
fn execution_target_hands_back_the_lookup_error() {
    match execution_target(Err(ReminderError::NotFound("r-1".to_string())), ExecutionResult::Success, NINE_UTC) {
        Err(ReminderError::NotFound(id)) => assert_eq!(id, "r-1"),
        other => panic!("unexpected: {:?}", other),
    }
}

#[test]
fn sqlite_update_outcomes() {
    assert!(update_outcome("r-1", Ok(1)).is_ok());
    match update_outcome("r-1", Ok(0)) {
        Err(ReminderError::NotFound(id)) => assert_eq!(id, "r-1"),
        other => panic!("unexpected: {:?}", other),
    }
    match update_outcome("r-1", Err("disk I/O error".to_string())) {
        Err(ReminderError::Store(m)) => assert_eq!(m, "update reminder: disk I/O error"),
        other => panic!("unexpected: {:?}", other),
    }
}

#[test]
fn pg_update_outcomes() {
    assert_eq!(pg_update_rows("r-1", Ok(2)), Ok(()));
    assert_eq!(
        pg_update_rows("r-1", Ok(0)),
        Err(StorageError::Backend("reminder r-1 not found".to_string()))
    );
    assert_eq!(
        pg_update_rows("r-1", Err("connection reset".to_string())),
        Err(StorageError::Backend("update reminder: connection reset".to_string()))
    );
    match pg_update_error("r-1", "reminder r-1 not found") {
        ReminderError::NotFound(id) => assert_eq!(id, "r-1"),
        other => panic!("unexpected: {:?}", other),
    }
    match pg_update_error("r-1", "update reminder: relation \"reminders\" not found") {
        ReminderError::NotFound(id) => assert_eq!(id, "r-1"),
        other => panic!("unexpected: {:?}", other),
    }
    match pg_update_error("r-1", "get conn: timed out") {
        ReminderError::Store(m) => assert_eq!(m, "storage backend error: get conn: timed out"),
        other => panic!("unexpected: {:?}", other),
    }
}

#[test]
fn substring_search() {
    assert!(str_contains("storage backend error: x not found", "not found"));
    assert!(str_contains("abc", ""));
    assert!(str_contains("not found", "not found"));
    assert!(!str_contains("not foun", "not found"));
    assert!(!str_contains("nOt found", "not found"));
    assert!(str_contains("ünot found", "not found"));
}
