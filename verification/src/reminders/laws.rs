//! Properties of the reminder lifecycle and schedules.
use vstd::prelude::*;

use crate::reminders::error::ReminderError;
use crate::reminders::lifecycle::{
    approve_post, cancel_post, fresh_ref_count, marked, promoted, record_post, snooze_post,
    start_post,
};
use crate::reminders::schedule::{
    day_start, days_until, interval_secs, spec_next_due, weekday_number_of, Schedule,
};
use crate::reminders::manager::remind_me_post;
use crate::reminders::store::{lists_id, stored};
use crate::reminders::types::{
    filter_matches, reminder_matches, ExecutionRecord, ExecutionResult, Priority, Reminder,
    ReminderFilter, ReminderRef, ReminderStatus,
};
use crate::time::{Timestamp, DAY_MILLIS, MIN_TIMESTAMP};

verus! {

/// A completed or cancelled reminder refuses snoozing, approval,
/// starting and logging an execution, and a completed one refuses
/// cancelling: each answers `AlreadyTerminal`.
pub proof fn terminal_reminders_refuse_changes(
    r: Reminder,
    until: Timestamp,
    approved_by: Seq<char>,
    agent: Seq<char>,
    record: ExecutionRecord,
    now: Timestamp,
    snoozed: Result<Reminder, ReminderError>,
    cancelled: Result<Reminder, ReminderError>,
    approved: Result<Reminder, ReminderError>,
    started: Result<Reminder, ReminderError>,
    recorded: Result<Reminder, ReminderError>,
)
    requires
        r.status.spec_is_terminal(),
        snooze_post(r, until, snoozed),
        cancel_post(r, cancelled),
        approve_post(r, approved_by, approved),
        start_post(r, agent, now, started),
        record_post(r, record, now, recorded),
    ensures
        snoozed matches Err(ReminderError::AlreadyTerminal(_, s)) && s == r.status,
        approved matches Err(ReminderError::AlreadyTerminal(_, s)) && s == r.status,
        started matches Err(ReminderError::AlreadyTerminal(_, s)) && s == r.status,
        recorded matches Err(ReminderError::AlreadyTerminal(_, s)) && s == r.status,
        r.status == ReminderStatus::Completed ==> cancelled is Err,
        r.status == ReminderStatus::Cancelled ==> cancelled is Ok,
{
}

/// Promotion never hands a non-autonomous reminder to the agent: it
/// becomes `Due` only when it was already due or is autonomous.
pub proof fn promotion_respects_autonomy(r: Reminder, now: Timestamp)
    ensures
        promoted(r, now).status == ReminderStatus::Due ==> r.status == ReminderStatus::Due
            || r.autonomous,
        !r.autonomous && promoted(r, now).status != r.status ==> promoted(r, now).status
            == ReminderStatus::AwaitingPermission,
{
}

/// Promoting twice at the same time is promoting once.
pub proof fn promotion_is_idempotent(r: Reminder, now: Timestamp)
    ensures
        promoted(promoted(r, now), now) == promoted(r, now),
{
}

/// A daily schedule's next time is strictly ahead, at most a day away,
/// and at the schedule's time of day.
pub proof fn daily_next_due_is_ahead(time: crate::reminders::schedule::TimeOfDay, after: int)
    requires
        0 <= time.ms() < DAY_MILLIS,
    ensures
        spec_next_due(Schedule::Daily { time }, after) matches Some(t) && after < t <= after
            + DAY_MILLIS && t == day_start(t) + time.ms(),
{
    let d = day_start(after);
    let q = (after - MIN_TIMESTAMP) / (DAY_MILLIS as int);
    assert(q * DAY_MILLIS <= after - MIN_TIMESTAMP < q * DAY_MILLIS + DAY_MILLIS) by (
    nonlinear_arith)
        requires
            q == (after - MIN_TIMESTAMP) / (DAY_MILLIS as int),
    ;
    let t = if d + time.ms() > after {
        d + time.ms()
    } else {
        d + DAY_MILLIS + time.ms()
    };
    let q2 = if d + time.ms() > after {
        q
    } else {
        q + 1
    };
    assert(t - MIN_TIMESTAMP == q2 * DAY_MILLIS + time.ms());
    assert((t - MIN_TIMESTAMP) / (DAY_MILLIS as int) == q2) by (nonlinear_arith)
        requires
            t - MIN_TIMESTAMP == q2 * DAY_MILLIS + time.ms(),
            0 <= time.ms() < DAY_MILLIS,
    ;
}

/// A weekly schedule's next time is strictly ahead, at most eight days
/// away, on the schedule's day, at its time of day.
pub proof fn weekly_next_due_lands_on_day(
    day: crate::reminders::schedule::Weekday,
    time: crate::reminders::schedule::TimeOfDay,
    after: int,
)
    requires
        0 <= time.ms() < DAY_MILLIS,
    ensures
        spec_next_due(Schedule::Weekly { day, time }, after) matches Some(t) && after < t <= after
            + 8 * DAY_MILLIS && weekday_number_of(day_start(t)) == day.number() && t == day_start(
            t,
        ) + time.ms(),
{
    let q = (after - MIN_TIMESTAMP) / (DAY_MILLIS as int);
    assert(q * DAY_MILLIS <= after - MIN_TIMESTAMP < q * DAY_MILLIS + DAY_MILLIS) by (
    nonlinear_arith)
        requires
            q == (after - MIN_TIMESTAMP) / (DAY_MILLIS as int),
    ;
    let d = day_start(after) + DAY_MILLIS;
    assert(d - MIN_TIMESTAMP == (q + 1) * DAY_MILLIS);
    assert((d - MIN_TIMESTAMP) / (DAY_MILLIS as int) == q + 1) by (nonlinear_arith)
        requires
            d - MIN_TIMESTAMP == (q + 1) * DAY_MILLIS,
    ;
    let k = days_until(d, day);
    assert(0 <= k < 7);
    let t = d + k * DAY_MILLIS + time.ms();
    assert(t - MIN_TIMESTAMP == (q + 1 + k) * DAY_MILLIS + time.ms());
    assert((t - MIN_TIMESTAMP) / (DAY_MILLIS as int) == q + 1 + k) by (nonlinear_arith)
        requires
            t - MIN_TIMESTAMP == (q + 1 + k) * DAY_MILLIS + time.ms(),
            0 <= time.ms() < DAY_MILLIS,
    ;
    assert(weekday_number_of(day_start(t)) == (q + 1 + k + 2) % 7);
    assert(weekday_number_of(d) == (q + 1 + 2) % 7);
}

/// An interval schedule's next time is the completion time plus the
/// interval.
pub proof fn interval_next_due_adds_interval(every_seconds: u64, after: int)
    ensures
        spec_next_due(Schedule::Interval { every_seconds }, after) == Some(
            after + interval_secs(every_seconds) * 1000,
        ),
        every_seconds <= i64::MAX ==> interval_secs(every_seconds) == every_seconds,
{
}

/// After a successful execution, a reminder with a daily or weekly
/// schedule is not finished: it waits again (pending, or awaiting
/// permission when not autonomous) for a due time strictly ahead.
pub proof fn successful_repeat_is_rescheduled(
    r: Reminder,
    record: ExecutionRecord,
    now: Timestamp,
    r2: Reminder,
)
    requires
        record_post(r, record, now, Ok(r2)),
        record.result == ExecutionResult::Success,
        r.schedule matches Some(s) && !(s is Once) && !(s is Interval),
        r.schedule matches Some(s) && (s matches Schedule::Daily { time } ==> 0 <= time.ms()
            < DAY_MILLIS),
        r.schedule matches Some(s) && (s matches Schedule::Weekly { time, .. } ==> 0 <= time.ms()
            < DAY_MILLIS),
    ensures
        r2.status == (if r.autonomous {
            ReminderStatus::Pending
        } else {
            ReminderStatus::AwaitingPermission
        }),
        r2.due_at > now,
{
    match r.schedule {
        Some(Schedule::Daily { time }) => {
            daily_next_due_is_ahead(time, now as int);
        },
        Some(Schedule::Weekly { day, time }) => {
            weekly_next_due_lands_on_day(day, time, now as int);
        },
        _ => {},
    }
}

/// Marking references stale is idempotent: once marked, none of the
/// references with that id is fresh.
pub proof fn stale_marking_is_idempotent(refs: Seq<ReminderRef>, id: Seq<char>, refs2: Seq<ReminderRef>)
    requires
        refs2.len() == refs.len(),
        forall|i: int| 0 <= i < refs.len() ==> #[trigger] refs2[i] == marked(refs[i], id),
    ensures
        fresh_ref_count(refs2, id) == 0,
    decreases refs.len(),
{
    if refs.len() > 0 {
        let a = refs.drop_last();
        let b = refs2.drop_last();
        assert forall|i: int| 0 <= i < a.len() implies #[trigger] b[i] == marked(a[i], id) by {
            assert(b[i] == refs2[i]);
            assert(a[i] == refs[i]);
        }
        stale_marking_is_idempotent(a, id, b);
        assert(refs2.last() == marked(refs.last(), id));
    }
}

/// What a store reads back under an id is what was last saved there.
pub proof fn saved_reminder_reads_back(
    old: Map<Seq<char>, Reminder>,
    new: Map<Seq<char>, Reminder>,
    r: Reminder,
)
    requires
        stored(old, new, r),
    ensures
        new.dom().contains(r.id@),
        reminder_matches(new[r.id@], r),
{
}

/// A snoozed reminder whose snooze is over (its snooze time, or its due
/// time when it has none, is not after `now`) wakes when promoted,
/// autonomous or not: the snooze is cleared and it becomes `Due`, or
/// `AwaitingPermission` when it is not autonomous.
pub proof fn expired_snooze_wakes(r: Reminder, now: Timestamp)
    requires
        r.status == ReminderStatus::Snoozed,
        match r.snoozed_until {
            Some(t) => t <= now,
            None => r.due_at <= now,
        },
    ensures
        promoted(r, now).snoozed_until is None,
        promoted(r, now).status == (if r.autonomous {
            ReminderStatus::Due
        } else {
            ReminderStatus::AwaitingPermission
        }),
        promoted(r, now).id == r.id,
        promoted(r, now).due_at == r.due_at,
{
}

/// A pending reminder whose due time has come becomes `Due` when
/// promoted, or `AwaitingPermission` when it is not autonomous; one whose
/// due time has not come, or a snoozed one still asleep, is left alone.
pub proof fn promotion_follows_the_clock(r: Reminder, now: Timestamp)
    ensures
        r.status == ReminderStatus::Pending && r.due_at <= now ==> promoted(r, now).status == (if r.autonomous {
            ReminderStatus::Due
        } else {
            ReminderStatus::AwaitingPermission
        }),
        r.status == ReminderStatus::Pending && r.due_at > now ==> promoted(r, now) == r,
        r.status == ReminderStatus::Snoozed && (match r.snoozed_until {
            Some(t) => t > now,
            None => r.due_at > now,
        }) ==> promoted(r, now) == r,
{
}

/// After a successful `remind_me` at `now`, every stored reminder that was
/// snoozed with its snooze over is awake (no snooze time, `Due` or
/// `AwaitingPermission`) and is in the returned list, whatever its
/// autonomous flag.
pub proof fn remind_me_lists_woken_reminders(
    old: Map<Seq<char>, Reminder>,
    new: Map<Seq<char>, Reminder>,
    now: Timestamp,
    res: Result<Vec<Reminder>, ReminderError>,
    id: Seq<char>,
)
    requires
        remind_me_post(old, new, now, res),
        res is Ok,
        old.dom().contains(id),
        old[id].status == ReminderStatus::Snoozed,
        match old[id].snoozed_until {
            Some(t) => t <= now,
            None => old[id].due_at <= now,
        },
    ensures
        new.dom().contains(id),
        new[id].snoozed_until is None,
        new[id].status == ReminderStatus::Due || new[id].status
            == ReminderStatus::AwaitingPermission,
        res matches Ok(v) && lists_id(v@, id),
{
    expired_snooze_wakes(old[id], now);
    assert(old.dom().contains(id));
    assert(reminder_matches(new[id], promoted(old[id], now)));
}

/// Logging a failed or deferred run of an in-progress reminder hands it
/// back: it is `Due` again, its due time and snooze unchanged.
pub proof fn unfinished_run_returns_to_due(
    r: Reminder,
    record: ExecutionRecord,
    now: Timestamp,
    res: Result<Reminder, ReminderError>,
)
    requires
        record_post(r, record, now, res),
        r.status == ReminderStatus::InProgress,
        record.result == ExecutionResult::Failed || record.result == ExecutionResult::Deferred,
    ensures
        res matches Ok(r2) && r2.status == ReminderStatus::Due && r2.due_at == r.due_at
            && r2.snoozed_until == r.snoozed_until && r2.id == r.id,
{
}

/// A `Due` reminder can be started, autonomous or not: it becomes
/// `InProgress` with one more execution record, open, for the agent.
pub proof fn due_reminder_starts(
    r: Reminder,
    agent: Seq<char>,
    now: Timestamp,
    res: Result<Reminder, ReminderError>,
)
    requires
        start_post(r, agent, now, res),
        r.status == ReminderStatus::Due,
    ensures
        res matches Ok(r2) && r2.status == ReminderStatus::InProgress && r2.id == r.id
            && r2.executions@.len() == r.executions@.len() + 1
            && r2.executions@.last().completed_at is None
            && r2.executions@.last().started_at == now
            && r2.executions@.last().agent_id@ == agent,
{
}

/// Approving a reminder that awaits permission, then starting it,
/// succeeds: approval is what lets a non-autonomous reminder run.
pub proof fn approval_lets_a_reminder_start(
    r: Reminder,
    approver: Seq<char>,
    approved: Result<Reminder, ReminderError>,
    agent: Seq<char>,
    now: Timestamp,
    started: Result<Reminder, ReminderError>,
)
    requires
        r.status == ReminderStatus::AwaitingPermission,
        approve_post(r, approver, approved),
        approved matches Ok(a) ==> start_post(a, agent, now, started),
    ensures
        approved matches Ok(a) && a.status == ReminderStatus::Due,
        started matches Ok(s) && s.status == ReminderStatus::InProgress && s.id == r.id,
{
    if let Ok(a) = approved {
        due_reminder_starts(a, agent, now, started);
    }
}

/// Cancelling succeeds on every reminder that is not completed: it comes
/// back `Cancelled`, with everything else as it was.
pub proof fn cancel_succeeds_unless_completed(r: Reminder, res: Result<Reminder, ReminderError>)
    requires
        cancel_post(r, res),
        r.status != ReminderStatus::Completed,
    ensures
        res matches Ok(r2) && r2.status == ReminderStatus::Cancelled && r2 == (Reminder {
            status: r2.status,
            ..r
        }),
{
}

/// A filter on priority alone keeps exactly the reminders at least as
/// urgent as its bound (urgency number at most the bound's): a `Critical`
/// reminder passes every such filter, and one bounded by `Critical`
/// passes nothing less urgent.
pub proof fn priority_filter_keeps_the_more_urgent(f: ReminderFilter, r: Reminder, p: Priority)
    requires
        f.priority_at_most == Some(p),
        f.status is None,
        f.created_by is None,
        f.due_before is None,
        f.ref_id is None,
        f.tags@.len() == 0,
    ensures
        filter_matches(f, r) <==> r.priority.number() <= p.number(),
        r.priority == Priority::Critical ==> filter_matches(f, r),
        p == Priority::Critical ==> (filter_matches(f, r) <==> r.priority == Priority::Critical),
{
}

/// Snoozing a reminder that is not finished, then promoting it once the
/// snooze time has come, wakes it: autonomous or not, it is actionable
/// again with no snooze time.
pub proof fn snoozed_reminder_wakes_at_its_time(
    r: Reminder,
    until: Timestamp,
    res: Result<Reminder, ReminderError>,
    now: Timestamp,
)
    requires
        !r.status.spec_is_terminal(),
        snooze_post(r, until, res),
        until <= now,
    ensures
        res matches Ok(s) && s.status == ReminderStatus::Snoozed && s.snoozed_until == Some(until),
        res matches Ok(s) && promoted(s, now).snoozed_until is None && (promoted(s, now).status
            == ReminderStatus::Due || promoted(s, now).status
            == ReminderStatus::AwaitingPermission),
{
    if let Ok(s) = res {
        expired_snooze_wakes(s, now);
    }
}

/// Logging an execution on a reminder that is not finished closes a run
/// at `now` with the logged result: the open record when there is one,
/// else a new record. A snoozed or cancelled result sets that status, and
/// a failed or deferred one leaves a reminder that was not in progress in
/// its status.
pub proof fn logged_run_is_closed(
    r: Reminder,
    record: ExecutionRecord,
    now: Timestamp,
    res: Result<Reminder, ReminderError>,
)
    requires
        record_post(r, record, now, res),
        !r.status.spec_is_terminal(),
    ensures
        res matches Ok(r2) && r2.executions@.len() > 0 && r2.executions@.last().completed_at
            == Some(now) && r2.executions@.last().result == record.result,
        res matches Ok(r2) && r2.executions@.len() == (if r.executions@.len() > 0
            && r.executions@.last().completed_at is None {
            r.executions@.len()
        } else {
            r.executions@.len() + 1
        }),
        record.result == ExecutionResult::Snoozed ==> (res matches Ok(r2) && r2.status
            == ReminderStatus::Snoozed),
        record.result == ExecutionResult::Cancelled ==> (res matches Ok(r2) && r2.status
            == ReminderStatus::Cancelled),
        (record.result == ExecutionResult::Failed || record.result == ExecutionResult::Deferred)
            && r.status != ReminderStatus::InProgress ==> (res matches Ok(r2) && r2.status
            == r.status),
{
}

/// Only an actionable reminder starts: a pending, snoozed or in-progress
/// one is refused as an invalid move to `InProgress`, and one awaiting
/// permission that is not autonomous needs approval first; an autonomous
/// one awaiting permission starts.
pub proof fn start_requires_an_actionable_reminder(
    r: Reminder,
    agent: Seq<char>,
    now: Timestamp,
    res: Result<Reminder, ReminderError>,
)
    requires
        start_post(r, agent, now, res),
    ensures
        r.status == ReminderStatus::Pending || r.status == ReminderStatus::Snoozed || r.status
            == ReminderStatus::InProgress ==> (res matches Err(
            ReminderError::InvalidTransition { from, to, .. },
        ) && from == r.status && to == ReminderStatus::InProgress),
        r.status == ReminderStatus::AwaitingPermission && !r.autonomous ==> (res matches Err(
            ReminderError::RequiresApproval(id),
        ) && id@ == r.id@),
        r.status == ReminderStatus::AwaitingPermission && r.autonomous ==> (res matches Ok(r2)
            && r2.status == ReminderStatus::InProgress),
{
}

} // verus!
