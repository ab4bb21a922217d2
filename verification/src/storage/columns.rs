//! Reading stored rows back: date columns hold RFC 3339 texts, JSON
//! columns hold serialised lists and records, and a column that does not
//! decode is reported under its name. The backends differ in how they
//! store priorities and flags and in the error they report with; what a
//! decoded row holds is the same.
use vstd::prelude::*;

use crate::reminders::schedule::Schedule;
use crate::reminders::types::{ExecutionRecord, Reminder, ReminderRef};
use crate::storage::codec::{
    effect_text, kind_text, priority_of, severity_text, status_text,
};
use crate::taint::types::{Taint, TaintMetadata};
use crate::storage::codec::message;
use crate::time::{rfc3339_instant, Timestamp};

verus! {

/// A date column as read: the instant in milliseconds, or the parser's
/// message.
pub type DateRead = Result<int, Seq<char>>;

/// How a date column's text reads.
pub open spec fn date_read(s: &str) -> DateRead {
    rfc3339_instant(s@)
}

/// How an optional date column reads; an absent one stays absent.
pub open spec fn optional_date_read(s: Option<&str>) -> Option<DateRead> {
    match s {
        Some(t) => Some(date_read(t)),
        None => None,
    }
}

/// A parse outcome as handed over, taken as a `DateRead`.
pub open spec fn as_date_read(p: Result<Timestamp, String>) -> DateRead {
    match p {
        Ok(t) => Ok(t as int),
        Err(m) => Err(m@),
    }
}

/// An optional parse outcome as handed over, taken as a `DateRead`.
pub open spec fn as_optional_date_read(p: Option<Result<Timestamp, String>>) -> Option<DateRead> {
    match p {
        Some(q) => Some(as_date_read(q)),
        None => None,
    }
}

/// The date column read as `t`.
pub open spec fn read_as(p: DateRead, t: Timestamp) -> bool {
    p == Ok::<int, Seq<char>>(t as int)
}

/// The optional date column read as `t`: both absent, or both present and
/// equal.
pub open spec fn optional_read_as(p: Option<DateRead>, t: Option<Timestamp>) -> bool {
    match (p, t) {
        (Some(q), Some(v)) => read_as(q, v),
        (None, None) => true,
        _ => false,
    }
}

/// The report for a date column that did not read: its label (which ends
/// in `": "`) and the parser's message.
pub open spec fn date_failure(label: Seq<char>, p: DateRead) -> Option<Seq<char>> {
    match p {
        Ok(_) => None,
        Err(m) => Some(label + m),
    }
}

pub open spec fn optional_date_failure(label: Seq<char>, p: Option<DateRead>) -> Option<Seq<char>> {
    match p {
        Some(q) => date_failure(label, q),
        None => None,
    }
}

/// The report for a JSON column that did not parse: its label and the
/// parser's message.
pub open spec fn json_failure<T>(label: Seq<char>, p: Result<T, String>) -> Option<Seq<char>> {
    match p {
        Ok(_) => None,
        Err(m) => Some(label + m@),
    }
}

pub open spec fn optional_json_failure<T>(label: Seq<char>, p: Option<Result<T, String>>) -> Option<
    Seq<char>,
> {
    match p {
        Some(q) => json_failure(label, q),
        None => None,
    }
}

/// The first report of two.
pub open spec fn first_of(a: Option<Seq<char>>, b: Option<Seq<char>>) -> Option<Seq<char>> {
    if a is Some {
        a
    } else {
        b
    }
}

/// A JSON column that parsed, as a value of the row.
pub open spec fn parsed_as<T>(p: Result<T, String>, v: T) -> bool {
    p == Ok::<T, String>(v)
}

/// An optional JSON column that parsed: both absent, or present and
/// equal.
pub open spec fn optional_parsed_as<T>(p: Option<Result<T, String>>, v: Option<T>) -> bool {
    match (p, v) {
        (Some(q), Some(x)) => parsed_as(q, x),
        (None, None) => true,
        _ => false,
    }
}

/// The reminder `x` holds exactly the row's columns: the plain ones as
/// they are, the status under its stored text, the priority under its
/// urgency number, the dates as they read and the JSON columns as they
/// parsed.
pub open spec fn reminder_holds_row(
    x: Reminder,
    id: String,
    title: String,
    instructions: String,
    commands: Result<Vec<String>, String>,
    refs: Result<Vec<ReminderRef>, String>,
    priority: int,
    due_at: DateRead,
    schedule: Option<Result<Schedule, String>>,
    autonomous: bool,
    created_by: String,
    created_at: DateRead,
    status: Seq<char>,
    snoozed_until: Option<DateRead>,
    executions: Result<Vec<ExecutionRecord>, String>,
    tags: Result<Vec<String>, String>,
) -> bool {
    &&& x.id == id
    &&& x.title == title
    &&& x.instructions == instructions
    &&& parsed_as(commands, x.commands)
    &&& parsed_as(refs, x.refs)
    &&& priority_of(priority) == Some(x.priority)
    &&& read_as(due_at, x.due_at)
    &&& optional_parsed_as(schedule, x.schedule)
    &&& x.autonomous == autonomous
    &&& x.created_by == created_by
    &&& read_as(created_at, x.created_at)
    &&& status_text(x.status) == status
    &&& optional_read_as(snoozed_until, x.snoozed_until)
    &&& parsed_as(executions, x.executions)
    &&& parsed_as(tags, x.tags)
}

/// The first failing column of a reminders row after its status and
/// priority: the dates, then the JSON columns, in the order they are
/// read.
pub open spec fn reminder_column_failure(
    commands: Result<Vec<String>, String>,
    refs: Result<Vec<ReminderRef>, String>,
    due_at: DateRead,
    schedule: Option<Result<Schedule, String>>,
    created_at: DateRead,
    snoozed_until: Option<DateRead>,
    executions: Result<Vec<ExecutionRecord>, String>,
    tags: Result<Vec<String>, String>,
) -> Option<Seq<char>> {
    first_of(
        date_failure("due_at: "@, due_at),
        first_of(
            date_failure("created_at: "@, created_at),
            first_of(
                optional_date_failure("snoozed_until: "@, snoozed_until),
                first_of(
                    json_failure("commands: "@, commands),
                    first_of(
                        json_failure("refs: "@, refs),
                        first_of(
                            optional_json_failure("schedule: "@, schedule),
                            first_of(
                                json_failure("executions: "@, executions),
                                json_failure("tags: "@, tags),
                            ),
                        ),
                    ),
                ),
            ),
        ),
    )
}

/// The taint `x` holds exactly the row's columns: the plain ones as they
/// are, the enums under their stored texts, the dates as they read and
/// the metadata as it parsed.
pub open spec fn taint_holds_row(
    x: Taint,
    id: String,
    path: String,
    name: String,
    kind: Seq<char>,
    effect: Seq<char>,
    severity: Seq<char>,
    reason: String,
    agent_id: String,
    commit_id: String,
    created_at: DateRead,
    expires_at: Option<DateRead>,
    resolved_at: Option<DateRead>,
    resolved_by: Option<String>,
    resolved_reason: Option<String>,
    resolved_proof: Option<String>,
    propagate: bool,
    metadata: Result<TaintMetadata, String>,
) -> bool {
    &&& x.id == id
    &&& x.path == path
    &&& x.name == name
    &&& kind_text(x.kind) == kind
    &&& effect_text(x.effect) == effect
    &&& severity_text(x.severity) == severity
    &&& x.reason == reason
    &&& x.agent_id == agent_id
    &&& x.commit_id == commit_id
    &&& read_as(created_at, x.created_at)
    &&& optional_read_as(expires_at, x.expires_at)
    &&& optional_read_as(resolved_at, x.resolved_at)
    &&& x.resolved_by == resolved_by
    &&& x.resolved_reason == resolved_reason
    &&& x.resolved_proof == resolved_proof
    &&& x.propagate == propagate
    &&& parsed_as(metadata, x.metadata)
}

/// The first failing date column of a taints row, in the order they are
/// read.
pub open spec fn taint_date_failure(
    created_at: DateRead,
    expires_at: Option<DateRead>,
    resolved_at: Option<DateRead>,
) -> Option<Seq<char>> {
    first_of(
        date_failure("created_at: "@, created_at),
        first_of(
            optional_date_failure("expires_at: "@, expires_at),
            optional_date_failure("resolved_at: "@, resolved_at),
        ),
    )
}

/// The dates and JSON columns of a reminders row, in the order the row
/// holds them: commands, refs, due time, schedule, creation time, snooze
/// time, executions, tags.
pub type ReminderColumns = (
    Vec<String>,
    Vec<ReminderRef>,
    Timestamp,
    Option<Schedule>,
    Timestamp,
    Option<Timestamp>,
    Vec<ExecutionRecord>,
    Vec<String>,
);

/// The dates and JSON columns of a reminders row, or the report of the
/// first that failed (dates first, then the JSON columns).
pub(crate) fn reminder_columns(
    commands: Result<Vec<String>, String>,
    refs: Result<Vec<ReminderRef>, String>,
    due_at: Result<Timestamp, String>,
    schedule: Option<Result<Schedule, String>>,
    created_at: Result<Timestamp, String>,
    snoozed_until: Option<Result<Timestamp, String>>,
    executions: Result<Vec<ExecutionRecord>, String>,
    tags: Result<Vec<String>, String>,
) -> (r: Result<ReminderColumns, String>)
    ensures
        ({
            let failure = reminder_column_failure(
                commands,
                refs,
                as_date_read(due_at),
                schedule,
                as_date_read(created_at),
                as_optional_date_read(snoozed_until),
                executions,
                tags,
            );
            match r {
                Ok(c) => {
                    &&& failure is None
                    &&& parsed_as(commands, c.0)
                    &&& parsed_as(refs, c.1)
                    &&& read_as(as_date_read(due_at), c.2)
                    &&& optional_parsed_as(schedule, c.3)
                    &&& read_as(as_date_read(created_at), c.4)
                    &&& optional_read_as(as_optional_date_read(snoozed_until), c.5)
                    &&& parsed_as(executions, c.6)
                    &&& parsed_as(tags, c.7)
                },
                Err(m) => failure == Some(m@),
            }
        }),
{
    let due = match due_at {
        Ok(t) => t,
        Err(e) => {
            return Err(message("due_at: ", e.as_str()));
        },
    };
    let created = match created_at {
        Ok(t) => t,
        Err(e) => {
            return Err(message("created_at: ", e.as_str()));
        },
    };
    let snoozed = match snoozed_until {
        Some(Ok(t)) => Some(t),
        Some(Err(e)) => {
            return Err(message("snoozed_until: ", e.as_str()));
        },
        None => None,
    };
    let commands = match commands {
        Ok(v) => v,
        Err(e) => {
            return Err(message("commands: ", e.as_str()));
        },
    };
    let refs = match refs {
        Ok(v) => v,
        Err(e) => {
            return Err(message("refs: ", e.as_str()));
        },
    };
    let schedule = match schedule {
        Some(Ok(v)) => Some(v),
        Some(Err(e)) => {
            return Err(message("schedule: ", e.as_str()));
        },
        None => None,
    };
    let executions = match executions {
        Ok(v) => v,
        Err(e) => {
            return Err(message("executions: ", e.as_str()));
        },
    };
    let tags = match tags {
        Ok(v) => v,
        Err(e) => {
            return Err(message("tags: ", e.as_str()));
        },
    };
    Ok((commands, refs, due, schedule, created, snoozed, executions, tags))
}

/// The date columns of a taints row, or the report of the first that
/// failed.
pub(crate) fn taint_dates(
    created_at: Result<Timestamp, String>,
    expires_at: Option<Result<Timestamp, String>>,
    resolved_at: Option<Result<Timestamp, String>>,
) -> (r: Result<(Timestamp, Option<Timestamp>, Option<Timestamp>), String>)
    ensures
        ({
            let failure = taint_date_failure(
                as_date_read(created_at),
                as_optional_date_read(expires_at),
                as_optional_date_read(resolved_at),
            );
            match r {
                Ok(d) => {
                    &&& failure is None
                    &&& read_as(as_date_read(created_at), d.0)
                    &&& optional_read_as(as_optional_date_read(expires_at), d.1)
                    &&& optional_read_as(as_optional_date_read(resolved_at), d.2)
                },
                Err(m) => failure == Some(m@),
            }
        }),
{
    let created = match created_at {
        Ok(t) => t,
        Err(e) => {
            return Err(message("created_at: ", e.as_str()));
        },
    };
    let expires = match expires_at {
        Some(Ok(t)) => Some(t),
        Some(Err(e)) => {
            return Err(message("expires_at: ", e.as_str()));
        },
        None => None,
    };
    let resolved = match resolved_at {
        Some(Ok(t)) => Some(t),
        Some(Err(e)) => {
            return Err(message("resolved_at: ", e.as_str()));
        },
        None => None,
    };
    Ok((created, expires, resolved))
}

/// Reads an optional date column.
pub(crate) fn read_optional_date(s: Option<&str>) -> (r: Option<Result<Timestamp, String>>)
    ensures
        as_optional_date_read(r) == optional_date_read(s),
{
    match s {
        Some(t) => Some(crate::time::parse_rfc3339(t)),
        None => None,
    }
}

} // verus!
