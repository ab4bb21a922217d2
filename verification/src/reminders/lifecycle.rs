//! The reminder lifecycle: how each operation changes one reminder, or
//! why it refuses. `ReminderManager` fetches a reminder, applies one of
//! these steps and stores the result.
use vstd::prelude::*;

use crate::reminders::error::ReminderError;
use crate::reminders::schedule::{next_due_defined, spec_next_due, Schedule};
use crate::reminders::types::{
    ExecutionRecord, ExecutionResult, Reminder, ReminderRef, ReminderStatus,
};
use crate::text::{owned, str_eq};
use crate::time::Timestamp;

verus! {

/// The status a reminder takes when it becomes actionable on its own:
/// `Due` when the agent may act alone, else `AwaitingPermission`.
pub open spec fn gate(autonomous: bool) -> ReminderStatus {
    if autonomous {
        ReminderStatus::Due
    } else {
        ReminderStatus::AwaitingPermission
    }
}

/// When a snoozed reminder wakes: its snooze time, or its due time.
pub open spec fn wake_time(r: Reminder) -> Timestamp {
    match r.snoozed_until {
        Some(t) => t,
        None => r.due_at,
    }
}

/// What `remind_me` at `now` makes of `r`: a pending reminder whose due
/// time has come, or a snoozed one whose snooze is over, becomes
/// actionable (see `gate`, and the snooze is cleared); anything else is
/// left as it is.
pub open spec fn promoted(r: Reminder, now: Timestamp) -> Reminder {
    if r.status == ReminderStatus::Pending && r.due_at <= now {
        Reminder { status: gate(r.autonomous), ..r }
    } else if r.status == ReminderStatus::Snoozed && wake_time(r) <= now {
        Reminder { status: gate(r.autonomous), snoozed_until: None, ..r }
    } else {
        r
    }
}

/// The promotion `remind_me` applies to each reminder.
pub fn promote(r: Reminder, now: Timestamp) -> (r2: Reminder)
    ensures
        r2 == promoted(r, now),
{
    let wake = match r.snoozed_until {
        Some(t) => t,
        None => r.due_at,
    };
    if r.status == ReminderStatus::Pending && r.due_at <= now {
        let st = if r.autonomous {
            ReminderStatus::Due
        } else {
            ReminderStatus::AwaitingPermission
        };
        Reminder { status: st, ..r }
    } else if r.status == ReminderStatus::Snoozed && wake <= now {
        let st = if r.autonomous {
            ReminderStatus::Due
        } else {
            ReminderStatus::AwaitingPermission
        };
        Reminder { status: st, snoozed_until: None, ..r }
    } else {
        r
    }
}

/// The refusal for a reminder that is already completed or cancelled.
pub open spec fn already_terminal(res: Result<Reminder, ReminderError>, r: Reminder) -> bool {
    res matches Err(ReminderError::AlreadyTerminal(id, s)) && id@ == r.id@ && s == r.status
}

/// Outcome of snoozing `r` until `until`.
pub open spec fn snooze_post(r: Reminder, until: Timestamp, res: Result<Reminder, ReminderError>) -> bool {
    if r.status.spec_is_terminal() {
        already_terminal(res, r)
    } else {
        res == Ok::<Reminder, ReminderError>(
            Reminder { status: ReminderStatus::Snoozed, snoozed_until: Some(until), ..r },
        )
    }
}

/// Snooze until `until`: refused once terminal.
pub fn snooze_step(r: Reminder, until: Timestamp) -> (res: Result<Reminder, ReminderError>)
    ensures
        snooze_post(r, until, res),

{
    if r.status.is_terminal() {
        return Err(ReminderError::AlreadyTerminal(r.id, r.status));
    }
    Ok(Reminder { status: ReminderStatus::Snoozed, snoozed_until: Some(until), ..r })
}

/// Outcome of cancelling `r`.
pub open spec fn cancel_post(r: Reminder, res: Result<Reminder, ReminderError>) -> bool {
    if r.status == ReminderStatus::Completed {
        already_terminal(res, r)
    } else {
        res == Ok::<Reminder, ReminderError>(
            Reminder { status: ReminderStatus::Cancelled, ..r },
        )
    }
}

/// Cancel: refused once completed; cancelling a cancelled reminder
/// changes nothing.
pub fn cancel_step(r: Reminder) -> (res: Result<Reminder, ReminderError>)
    ensures
        cancel_post(r, res),

{
    if r.status == ReminderStatus::Completed {
        return Err(ReminderError::AlreadyTerminal(r.id, r.status));
    }
    Ok(Reminder { status: ReminderStatus::Cancelled, ..r })
}

/// The last execution record of `r` is still open.
pub open spec fn open_execution(r: Reminder) -> bool {
    r.executions@.len() > 0 && r.executions@.last().completed_at is None
}

/// Outcome of approving `r` for execution by `approved_by`.
pub open spec fn approve_post(r: Reminder, approved_by: Seq<char>, res: Result<Reminder, ReminderError>) -> bool {
    if r.status.spec_is_terminal() {
        already_terminal(res, r)
    } else if r.status != ReminderStatus::AwaitingPermission && r.status
        != ReminderStatus::Due {
        res matches Err(ReminderError::InvalidTransition { id, from, to }) && id@ == r.id@
            && from == r.status && to == ReminderStatus::Due
    } else {
        res matches Ok(r2) && r2 == (Reminder {
            status: ReminderStatus::Due,
            executions: r2.executions,
            ..r
        }) && (if open_execution(r) {
            let n = r.executions@.len() - 1;
            let e = r2.executions@[n];
            &&& r2.executions@ == r.executions@.update(n, e)
            &&& e == (ExecutionRecord { approved_by: e.approved_by, ..r.executions@[n] })
            &&& e.approved_by matches Some(a) && a@ == approved_by
        } else {
            r2.executions@ == r.executions@
        })
    }
}

/// Approve for execution: from `AwaitingPermission` (or an already
/// approved `Due`) to `Due`, stamping an open execution record with the
/// approver. Refused once terminal, and from any other status.
pub fn approve_step(r: Reminder, approved_by: &str) -> (res: Result<Reminder, ReminderError>)
    ensures
        approve_post(r, approved_by@, res),

{
    let mut r = r;
    match r.status {
        ReminderStatus::AwaitingPermission => {},
        ReminderStatus::Due => {},
        ReminderStatus::Completed | ReminderStatus::Cancelled => {
            return Err(ReminderError::AlreadyTerminal(r.id, r.status));
        },
        _ => {
            return Err(
                ReminderError::InvalidTransition {
                    id: r.id,
                    from: r.status,
                    to: ReminderStatus::Due,
                },
            );
        },
    }
    r.status = ReminderStatus::Due;
    let n = r.executions.len();
    if n > 0 && r.executions[n - 1].completed_at.is_none() {
        r.executions[n - 1].approved_by = Some(owned(approved_by));
    }
    Ok(r)
}

/// Outcome of `agent_id` starting `r` at `now`.
pub open spec fn start_post(r: Reminder, agent_id: Seq<char>, now: Timestamp, res: Result<Reminder, ReminderError>) -> bool {
    if r.status.spec_is_terminal() {
        already_terminal(res, r)
    } else if r.status == ReminderStatus::AwaitingPermission && !r.autonomous {
        res matches Err(ReminderError::RequiresApproval(id)) && id@ == r.id@
    } else if r.status != ReminderStatus::AwaitingPermission && r.status
        != ReminderStatus::Due {
        res matches Err(ReminderError::InvalidTransition { id, from, to }) && id@ == r.id@
            && from == r.status && to == ReminderStatus::InProgress
    } else {
        res matches Ok(r2) && r2 == (Reminder {
            status: ReminderStatus::InProgress,
            executions: r2.executions,
            ..r
        }) && r2.executions@.len() == r.executions@.len() + 1 && r2.executions@.drop_last()
            == r.executions@ && ({
            let e = r2.executions@.last();
            &&& e.started_at == now
            &&& e.completed_at is None
            &&& e.agent_id@ == agent_id
            &&& e.approved_by is None
            &&& e.result == ExecutionResult::Deferred
            &&& e.notes@.len() == 0
            &&& e.task_id is None
        })
    }
}

/// Start executing: from `Due` (or `AwaitingPermission` when the
/// reminder is autonomous) to `InProgress`, opening an execution record
/// for `agent_id` at `now`. A non-autonomous reminder awaiting permission
/// requires approval first; refused once terminal and from any other
/// status.
pub fn start_step(r: Reminder, agent_id: &str, now: Timestamp) -> (res: Result<
    Reminder,
    ReminderError,
>)
    ensures
        start_post(r, agent_id@, now, res),

{
    let mut r = r;
    match r.status {
        ReminderStatus::Due => {},
        ReminderStatus::AwaitingPermission => {
            if !r.autonomous {
                return Err(ReminderError::RequiresApproval(r.id));
            }
        },
        ReminderStatus::Completed | ReminderStatus::Cancelled => {
            return Err(ReminderError::AlreadyTerminal(r.id, r.status));
        },
        _ => {
            return Err(
                ReminderError::InvalidTransition {
                    id: r.id,
                    from: r.status,
                    to: ReminderStatus::InProgress,
                },
            );
        },
    }
    let ghost before = r.executions@;
    r.executions.push(
        ExecutionRecord {
            started_at: now,
            completed_at: None,
            agent_id: owned(agent_id),
            approved_by: None,
            result: ExecutionResult::Deferred,
            notes: Vec::new(),
            task_id: None,
        },
    );
    r.status = ReminderStatus::InProgress;
    proof {
        assert(r.executions@.drop_last() =~= before);
    }
    Ok(r)
}

/// How `record_execution` logs `record`, completed at `now`: it closes
/// the open record (taking the new result, notes and task id, and the
/// approver when the new record names one), or appends the new record.
pub open spec fn logged(
    old: Seq<ExecutionRecord>,
    new: Seq<ExecutionRecord>,
    record: ExecutionRecord,
    now: Timestamp,
) -> bool {
    let n = old.len();
    if n > 0 && old.last().completed_at is None {
        &&& new.len() == n
        &&& new.drop_last() == old.drop_last()
        &&& new.last() == (ExecutionRecord {
            completed_at: Some(now),
            result: record.result,
            notes: record.notes,
            task_id: record.task_id,
            approved_by: if record.approved_by is Some {
                record.approved_by
            } else {
                old.last().approved_by
            },
            ..old.last()
        })
    } else {
        &&& new.len() == n + 1
        &&& new.drop_last() == old
        &&& new.last() == (ExecutionRecord { completed_at: Some(now), ..record })
    }
}

/// The next due time of a reminder's schedule after `now`, if any.
pub open spec fn next_time(schedule: Option<Schedule>, now: Timestamp) -> Option<int> {
    match schedule {
        Some(s) => spec_next_due(s, now as int),
        None => None,
    }
}

/// `record_execution` can compute the next due time: the calendar
/// arithmetic of the schedule stays in range.
pub open spec fn can_reschedule(r: Reminder, result: ExecutionResult, now: Timestamp) -> bool {
    r.status.spec_is_terminal() || result != ExecutionResult::Success || match r.schedule {
        Some(s) => next_due_defined(s, now as int),
        None => true,
    }
}

/// Whether `record_execution` can compute the next due time for `r`.
pub fn reschedule_fits(r: &Reminder, result: ExecutionResult, now: Timestamp) -> (b: bool)
    ensures
        b == can_reschedule(*r, result, now),
{
    if r.status.is_terminal() || result != ExecutionResult::Success {
        return true;
    }
    match &r.schedule {
        Some(s) => s.fits(now),
        None => true,
    }
}

/// The status and timing fields after logging an execution with
/// `result`: on success, a repeating reminder is reset for its next due
/// time (pending, or awaiting permission when not autonomous) and a
/// one-off one completes; a snoozed or cancelled result sets that
/// status; a failed or deferred one returns an in-progress reminder to
/// `Due`.
pub open spec fn after_execution(r: Reminder, result: ExecutionResult, now: Timestamp, r2: Reminder) -> bool {
    match result {
        ExecutionResult::Success => match next_time(r.schedule, now) {
            Some(next) => {
                &&& r2.due_at == next
                &&& r2.snoozed_until is None
                &&& r2.status == (if r.autonomous {
                    ReminderStatus::Pending
                } else {
                    ReminderStatus::AwaitingPermission
                })
            },
            None => {
                &&& r2.due_at == r.due_at
                &&& r2.snoozed_until == r.snoozed_until
                &&& r2.status == ReminderStatus::Completed
            },
        },
        ExecutionResult::Snoozed => {
            &&& r2.due_at == r.due_at
            &&& r2.snoozed_until == r.snoozed_until
            &&& r2.status == ReminderStatus::Snoozed
        },
        ExecutionResult::Cancelled => {
            &&& r2.due_at == r.due_at
            &&& r2.snoozed_until == r.snoozed_until
            &&& r2.status == ReminderStatus::Cancelled
        },
        _ => {
            &&& r2.due_at == r.due_at
            &&& r2.snoozed_until == r.snoozed_until
            &&& r2.status == (if r.status == ReminderStatus::InProgress {
                ReminderStatus::Due
            } else {
                r.status
            })
        },
    }
}

/// Outcome of logging `record`, completed at `now`, on `r`.
pub open spec fn record_post(r: Reminder, record: ExecutionRecord, now: Timestamp, res: Result<Reminder, ReminderError>) -> bool {
    if r.status.spec_is_terminal() {
        already_terminal(res, r)
    } else {
        res matches Ok(r2) && r2 == (Reminder {
            executions: r2.executions,
            due_at: r2.due_at,
            snoozed_until: r2.snoozed_until,
            status: r2.status,
            ..r
        }) && logged(r.executions@, r2.executions@, record, now) && after_execution(
            r,
            record.result,
            now,
            r2,
        )
    }
}

/// Log an execution that completed at `now` and move the reminder on
/// (see `logged` and `after_execution`). Refused once terminal.
pub fn record_step(r: Reminder, record: ExecutionRecord, now: Timestamp) -> (res: Result<
    Reminder,
    ReminderError,
>)
    requires
        can_reschedule(r, record.result, now),
    ensures
        record_post(r, record, now, res),

{
    let mut r = r;
    if r.status.is_terminal() {
        return Err(ReminderError::AlreadyTerminal(r.id, r.status));
    }
    let result = record.result;
    let ghost rec = record;
    let ghost before = r.executions@;
    let n = r.executions.len();
    if n > 0 && r.executions[n - 1].completed_at.is_none() {
        let ExecutionRecord { approved_by, notes, task_id, .. } = record;
        r.executions[n - 1].completed_at = Some(now);
        r.executions[n - 1].result = result;
        r.executions[n - 1].notes = notes;
        r.executions[n - 1].task_id = task_id;
        if approved_by.is_some() {
            r.executions[n - 1].approved_by = approved_by;
        }
        proof {
            assert(r.executions@.drop_last() =~= before.drop_last());
        }
    } else {
        r.executions.push(ExecutionRecord { completed_at: Some(now), ..record });
        proof {
            assert(r.executions@.drop_last() =~= before);
        }
    }
    match result {
        ExecutionResult::Success => {
            let next = match r.schedule {
                Some(s) => s.next_due(now),
                None => None,
            };
            match next {
                Some(t) => {
                    r.due_at = t;
                    r.snoozed_until = None;
                    r.status =
                    if r.autonomous {
                        ReminderStatus::Pending
                    } else {
                        ReminderStatus::AwaitingPermission
                    };
                },
                None => {
                    r.status = ReminderStatus::Completed;
                },
            }
        },
        ExecutionResult::Snoozed => {
            r.status = ReminderStatus::Snoozed;
        },
        ExecutionResult::Cancelled => {
            r.status = ReminderStatus::Cancelled;
        },
        ExecutionResult::Failed | ExecutionResult::Deferred => {
            if r.status == ReminderStatus::InProgress {
                r.status = ReminderStatus::Due;
            }
        },
    }
    Ok(r)
}

/// Number of references in `refs` with id `id` that are not stale yet.
pub open spec fn fresh_ref_count(refs: Seq<ReminderRef>, id: Seq<char>) -> nat
    decreases refs.len(),
{
    if refs.len() == 0 {
        0
    } else {
        fresh_ref_count(refs.drop_last(), id) + if refs.last().id@ == id && !refs.last().stale {
            1nat
        } else {
            0nat
        }
    }
}

/// The reference after marking id `id` stale.
pub open spec fn marked(rf: ReminderRef, id: Seq<char>) -> ReminderRef {
    if rf.id@ == id {
        ReminderRef { stale: true, ..rf }
    } else {
        rf
    }
}

/// Outcome of marking the references of `r` with id `ref_id` stale.
pub open spec fn stale_post(r: Reminder, ref_id: Seq<char>, res: (Reminder, usize)) -> bool {
    &&& res.0 == (Reminder { refs: res.0.refs, ..r })
    &&& res.0.refs@.len() == r.refs@.len()
    &&& forall|i: int|
        0 <= i < r.refs@.len() ==> #[trigger] res.0.refs@[i] == marked(r.refs@[i], ref_id)
    &&& res.1 == fresh_ref_count(r.refs@, ref_id)
}

/// Mark every reference with id `ref_id` stale; returns how many were
/// not stale before.
pub fn mark_stale_step(r: Reminder, ref_id: &str) -> (res: (Reminder, usize))
    ensures
        stale_post(r, ref_id@, res),

{
    let mut r = r;
    let ghost r0 = r;
    let ghost refs0 = r.refs@;
    let mut count: usize = 0;
    let mut i: usize = 0;
    while i < r.refs.len()
        invariant
            r == (Reminder { refs: r.refs, ..r0 }),
            refs0 == r0.refs@,
            r.refs@.len() == refs0.len(),
            i <= refs0.len(),
            forall|j: int| 0 <= j < i ==> #[trigger] r.refs@[j] == marked(refs0[j], ref_id@),
            forall|j: int| i <= j < refs0.len() ==> #[trigger] r.refs@[j] == refs0[j],
            count == fresh_ref_count(refs0.take(i as int), ref_id@),
            count <= i,
        decreases refs0.len() - i,
    {
        proof {
            assert(refs0.take(i + 1).drop_last() =~= refs0.take(i as int));
        }
        if str_eq(r.refs[i].id.as_str(), ref_id) {
            if !r.refs[i].stale {
                count = count + 1;
            }
            r.refs[i].stale = true;
        }
        i = i + 1;
    }
    proof {
        assert(refs0.take(refs0.len() as int) =~= refs0);
    }
    (r, count)
}

} // verus!
