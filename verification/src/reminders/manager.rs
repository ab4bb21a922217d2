//! `ReminderManager`: the reminder lifecycle over a `ReminderStore`.
//!
//! Every state transition, schedule advancement and permission check
//! lives in `lifecycle`; the manager fetches a reminder, applies the step
//! and stores the result, so the store stays a plain record store. What
//! the store answers is up to the store: the contracts below say what
//! holds of each answer.
use vstd::prelude::*;

use crate::reminders::error::ReminderError;
use crate::reminders::lifecycle::{
    approve_post, approve_step, cancel_post, cancel_step, can_reschedule, promote, promoted,
    record_post, record_step, reschedule_fits, snooze_post, snooze_step, stale_post,
    mark_stale_step, start_post, start_step, wake_time,
};
use crate::reminders::store::{
    by_urgency, distinct_ids, insert_by_urgency, keyed_by_id, listing, lists_id, stored,
    ReminderStore,
};
use crate::reminders::types::{
    filter_matches, built_from, lemma_reminder_matches_trans, reminder_matches, CreateReminder, ExecutionRecord,
    ExecutionResult, uuid_v4_text, Reminder, ReminderFilter, ReminderStatus,
};
use crate::text::owned;
use crate::time::{now_millis, Timestamp, MAX_TIMESTAMP};

verus! {

/// `v` lists the actionable records of `m` (status `Due` or
/// `AwaitingPermission`): one per id, ordered by urgency.
pub open spec fn actionable_listing(m: Map<Seq<char>, Reminder>, v: Seq<Reminder>) -> bool {
    &&& forall|i: int|
        0 <= i < v.len() ==> m.dom().contains((#[trigger] v[i]).id@) && reminder_matches(
            v[i],
            m[v[i].id@],
        ) && (m[v[i].id@].status == ReminderStatus::Due || m[v[i].id@].status
            == ReminderStatus::AwaitingPermission)
    &&& forall|k: Seq<char>|
        #[trigger] m.dom().contains(k) && (m[k].status == ReminderStatus::Due || m[k].status
            == ReminderStatus::AwaitingPermission) ==> lists_id(v, k)
    &&& distinct_ids(v)
    &&& by_urgency(v)
}

/// Every record of `new` is the record of `old` under the same id, or
/// what `remind_me` at `now` makes of it.
pub open spec fn partly_promoted(
    old: Map<Seq<char>, Reminder>,
    new: Map<Seq<char>, Reminder>,
    now: Timestamp,
) -> bool {
    &&& new.dom() == old.dom()
    &&& forall|k: Seq<char>|
        #[trigger] old.dom().contains(k) ==> new[k] == old[k] || reminder_matches(
            new[k],
            promoted(old[k], now),
        )
}

/// Every record of `new` is what `remind_me` at `now` makes of the record
/// of `old` under the same id.
pub open spec fn all_promoted(
    old: Map<Seq<char>, Reminder>,
    new: Map<Seq<char>, Reminder>,
    now: Timestamp,
) -> bool {
    &&& new.dom() == old.dom()
    &&& forall|k: Seq<char>|
        #[trigger] old.dom().contains(k) ==> reminder_matches(new[k], promoted(old[k], now))
}

/// Outcome of `remind_me` at `now`.
pub open spec fn remind_me_post(
    old: Map<Seq<char>, Reminder>,
    new: Map<Seq<char>, Reminder>,
    now: Timestamp,
    res: Result<Vec<Reminder>, ReminderError>,
) -> bool {
    match res {
        Ok(v) => all_promoted(old, new, now) && actionable_listing(new, v@),
        Err(_) => partly_promoted(old, new, now),
    }
}

/// `new` is `old` with the record under `id` replaced by `r2`, which
/// `step` produced from a copy of that record.
pub open spec fn applied(
    old: Map<Seq<char>, Reminder>,
    new: Map<Seq<char>, Reminder>,
    id: Seq<char>,
    r2: Reminder,
    step: spec_fn(Reminder) -> bool,
) -> bool {
    &&& old.dom().contains(id)
    &&& exists|c: Reminder| #[trigger] reminder_matches(c, old[id]) && step(c)
    &&& stored(old, new, r2)
}

/// `agent` started the reminder `id` at `now`, giving `r2`.
pub open spec fn started_at(
    old: Map<Seq<char>, Reminder>,
    new: Map<Seq<char>, Reminder>,
    id: Seq<char>,
    agent: Seq<char>,
    now: Timestamp,
    r2: Reminder,
) -> bool {
    applied(old, new, id, r2, |c: Reminder| start_post(c, agent, now, Ok(r2)))
}

/// `record` was logged on the reminder `id`, completed at `now`, giving
/// `r2`.
pub open spec fn recorded_at(
    old: Map<Seq<char>, Reminder>,
    new: Map<Seq<char>, Reminder>,
    id: Seq<char>,
    record: ExecutionRecord,
    now: Timestamp,
    r2: Reminder,
) -> bool {
    applied(old, new, id, r2, |c: Reminder| record_post(c, record, now, Ok(r2)))
}

/// The record `r2` replaced the one under its id when `n` is not zero;
/// otherwise nothing changed.
pub open spec fn stale_written(
    old: Map<Seq<char>, Reminder>,
    new: Map<Seq<char>, Reminder>,
    r2: Reminder,
    n: usize,
) -> bool {
    if n > 0 {
        stored(old, new, r2)
    } else {
        new == old
    }
}

/// The references with id `ref_id` of the reminder `id` were marked
/// stale, `n` of them fresh before (see `mark_stale_step`).
pub open spec fn marked_stale(
    old: Map<Seq<char>, Reminder>,
    new: Map<Seq<char>, Reminder>,
    id: Seq<char>,
    ref_id: Seq<char>,
    n: usize,
) -> bool {
    &&& old.dom().contains(id)
    &&& exists|c: Reminder, r2: Reminder|
        #[trigger] reminder_matches(c, old[id]) && #[trigger] stale_post(c, ref_id, (r2, n))
            && stale_written(old, new, r2, n)
}

/// A filter on status alone.
fn status_filter(s: ReminderStatus) -> (f: ReminderFilter)
    ensures
        f.status == Some(s),
        f.priority_at_most is None,
        f.created_by is None,
        f.due_before is None,
        f.ref_id is None,
        f.tags@.len() == 0,
{
    ReminderFilter {
        status: Some(s),
        priority_at_most: None,
        created_by: None,
        due_before: None,
        ref_id: None,
        tags: Vec::new(),
    }
}

/// A filter on status `s` alone passes exactly the reminders with that
/// status.
proof fn lemma_status_filter(f: ReminderFilter, s: ReminderStatus)
    requires
        f.status == Some(s),
        f.priority_at_most is None,
        f.created_by is None,
        f.due_before is None,
        f.ref_id is None,
        f.tags@.len() == 0,
    ensures
        forall|r: Reminder| #[trigger] filter_matches(f, r) <==> r.status == s,
{
}

/// What `ReminderManager::get` makes of the store's answer for `id`: the
/// record it found, `NotFound` when it found none, or the store's error.
pub fn found(id: &str, fetched: Result<Option<Reminder>, ReminderError>) -> (r: Result<
    Reminder,
    ReminderError,
>)
    ensures
        match fetched {
            Ok(Some(x)) => r == Ok::<Reminder, ReminderError>(x),
            Ok(None) => r matches Err(ReminderError::NotFound(s)) && s@ == id@,
            Err(e) => r == Err::<Reminder, ReminderError>(e),
        },
{
    match fetched {
        Ok(Some(x)) => Ok(x),
        Ok(None) => Err(ReminderError::NotFound(owned(id))),
        Err(e) => Err(e),
    }
}

/// What `ReminderManager::record_execution` makes of the reminder the
/// store handed back for an execution with `result` completed at `now`:
/// the reminder, when its next due time can be computed; `Store("next due
/// time out of range")` when it cannot; or the lookup's own error.
pub fn execution_target(
    fetched: Result<Reminder, ReminderError>,
    result: ExecutionResult,
    now: Timestamp,
) -> (r: Result<Reminder, ReminderError>)
    ensures
        match fetched {
            Ok(c) => if can_reschedule(c, result, now) {
                r == Ok::<Reminder, ReminderError>(c)
            } else {
                r matches Err(ReminderError::Store(m)) && m@ == "next due time out of range"@
            },
            Err(e) => r == Err::<Reminder, ReminderError>(e),
        },
{
    match fetched {
        Ok(c) => {
            if reschedule_fits(&c, result, now) {
                Ok(c)
            } else {
                Err(ReminderError::Store(owned("next due time out of range")))
            }
        },
        Err(e) => Err(e),
    }
}

/// Business logic over a reminder store.
pub struct ReminderManager<S: ReminderStore> {
    store: S,
}

impl<S: ReminderStore> ReminderManager<S> {
    /// The reminders in the store, by id.
    pub closed spec fn model(&self) -> Map<Seq<char>, Reminder> {
        self.store.contents()
    }

    pub fn new(store: S) -> (m: Self)
        ensures
            m.model() == store.contents(),
    {
        ReminderManager { store }
    }

    /// Every record is stored under its own id.
    pub proof fn lemma_keyed(&self)
        ensures
            keyed_by_id(self.model()),
    {
        self.store.lemma_keyed();
    }

    // -----------------------------------------------------------------------
    // Create / read
    // -----------------------------------------------------------------------

    /// Create and persist the reminder for `input` with id `id`, created
    /// at `now`.
    pub fn create_at(&mut self, input: CreateReminder, id: String, now: Timestamp) -> (res: Result<
        Reminder,
        ReminderError,
    >)
        ensures
            match res {
                Ok(r) => built_from(r, input, id, now) && stored(
                    old(self).model(),
                    final(self).model(),
                    r,
                ),
                Err(_) => final(self).model() == old(self).model(),
            },
    {
        let r = input.into_reminder_with(id, now);
        match self.store.save(&r) {
            Ok(()) => Ok(r),
            Err(e) => Err(e),
        }
    }

    /// Create and persist a new reminder with a fresh random id, created
    /// now. Returns the fully-populated record.
    pub fn create(&mut self, input: CreateReminder) -> (res: Result<Reminder, ReminderError>)
        ensures
            match res {
                Ok(r) => uuid_v4_text(r.id@) && 0 <= r.created_at <= MAX_TIMESTAMP && built_from(
                    r,
                    input,
                    r.id,
                    r.created_at,
                ) && stored(old(self).model(), final(self).model(), r),
                Err(_) => final(self).model() == old(self).model(),
            },
    {
        let r = input.into_reminder();
        match self.store.save(&r) {
            Ok(()) => Ok(r),
            Err(e) => Err(e),
        }
    }

    /// The reminder with this id; `NotFound` when the store has none.
    pub fn get(&self, id: &str) -> (res: Result<Reminder, ReminderError>)
        ensures
            res matches Ok(r) ==> self.model().dom().contains(id@) && reminder_matches(
                r,
                self.model()[id@],
            ),
            !self.model().dom().contains(id@) ==> res is Err,
    {
        found(id, self.store.get(id))
    }

    /// Every reminder that passes `filter`, ordered by priority, then due
    /// time.
    pub fn list(&self, filter: &ReminderFilter) -> (res: Result<Vec<Reminder>, ReminderError>)
        ensures
            res matches Ok(v) ==> listing(self.model(), *filter, v@),
    {
        self.store.list(filter)
    }

    // -----------------------------------------------------------------------
    // remind_me
    // -----------------------------------------------------------------------

    /// At time `now`: promote pending reminders that have come due and
    /// snoozed ones whose snooze is over (to `Due`, or to
    /// `AwaitingPermission` when not autonomous), then return every
    /// actionable reminder (`Due` or `AwaitingPermission`), ordered by
    /// priority, then due time.
    pub fn remind_me_at(&mut self, now: Timestamp) -> (res: Result<Vec<Reminder>, ReminderError>)
        ensures
            remind_me_post(old(self).model(), final(self).model(), now, res),
    {
        let ghost m0 = self.model();
        proof {
            self.lemma_keyed();
        }
        // Pending reminders whose due time has come.
        let fp = status_filter(ReminderStatus::Pending);
        proof {
            lemma_status_filter(fp, ReminderStatus::Pending);
        }
        let pending = match self.store.list(&fp) {
            Ok(v) => v,
            Err(e) => {
                return Err(e);
            },
        };
        let mut i: usize = 0;
        while i < pending.len()
            invariant
                i <= pending@.len(),
                m0 == old(self).model(),
                listing(m0, fp, pending@),
                forall|r: Reminder| #[trigger] filter_matches(fp, r) <==> r.status == ReminderStatus::Pending,
                keyed_by_id(m0),
                keyed_by_id(self.model()),
                self.model().dom() == m0.dom(),
                forall|k: Seq<char>|
                    #[trigger] m0.dom().contains(k) ==> if lists_id(pending@.take(i as int), k) {
                        reminder_matches(self.model()[k], promoted(m0[k], now))
                    } else {
                        self.model()[k] == m0[k]
                    },
            decreases pending.len() - i,
        {
            let ghost m = self.model();
            let ghost k = pending@[i as int].id@;
            proof {
                assert(lists_id(pending@.take(i + 1), k)) by {
                    assert(pending@.take(i + 1)[i as int] == pending@[i as int]);
                }
                assert forall|k2: Seq<char>| k2 != k implies lists_id(
                    pending@.take(i + 1),
                    k2,
                ) == lists_id(pending@.take(i as int), k2) by {
                    if lists_id(pending@.take(i + 1), k2) {
                        let j = choose|j: int|
                            0 <= j < i + 1 && (#[trigger] pending@.take(i + 1)[j]).id@ == k2;
                        assert(pending@.take(i + 1)[j] == pending@.take(i as int)[j]);
                    }
                    if lists_id(pending@.take(i as int), k2) {
                        let j = choose|j: int|
                            0 <= j < i && (#[trigger] pending@.take(i as int)[j]).id@ == k2;
                        assert(pending@.take(i + 1)[j] == pending@.take(i as int)[j]);
                    }
                }
                assert(!lists_id(pending@.take(i as int), k)) by {
                    if lists_id(pending@.take(i as int), k) {
                        let j = choose|j: int|
                            0 <= j < i && (#[trigger] pending@.take(i as int)[j]).id@ == k;
                        assert(pending@[j].id@ != pending@[i as int].id@);
                    }
                }
                assert(m0.dom().contains(k));
                assert(m[k] == m0[k]);
            }
            if pending[i].due_at <= now {
                let c = pending[i].copy();
                let r2 = promote(c, now);
                proof {
                    lemma_reminder_matches_trans(c, pending@[i as int], m0[k]);
                }
                match self.store.update(&r2) {
                    Ok(()) => {},
                    Err(e) => {
                        proof {
                            assert(self.model() == m);
                            assert forall|k2: Seq<char>| #[trigger] m0.dom().contains(k2) implies (
                            self.model()[k2] == m0[k2] || reminder_matches(
                                self.model()[k2],
                                promoted(m0[k2], now),
                            )) by {}
                            assert(partly_promoted(m0, self.model(), now));
                        }
                        return Err(e);
                    },
                }
                proof {
                    self.lemma_keyed();
                    assert(reminder_matches(self.model()[k], promoted(m0[k], now)));
                }
            } else {
                proof {
                    assert(promoted(m0[k], now) == m0[k]);
                }
            }
            i = i + 1;
        }
        let ghost m1 = self.model();
        proof {
            assert forall|k: Seq<char>| #[trigger] m0.dom().contains(k) implies (if m0[k].status
                == ReminderStatus::Pending {
                reminder_matches(m1[k], promoted(m0[k], now))
            } else {
                m1[k] == m0[k]
            }) by {
                if m0[k].status == ReminderStatus::Pending {
                    assert(pending@.take(pending@.len() as int) =~= pending@);
                } else if lists_id(pending@, k) {
                    let j = choose|j: int| 0 <= j < pending@.len() && (#[trigger] pending@[j]).id@ == k;
                    assert(m0[pending@[j].id@].status == ReminderStatus::Pending);
                }
                assert(pending@.take(pending@.len() as int) =~= pending@);
            }
        }
        // Snoozed reminders whose snooze is over.
        let fs = status_filter(ReminderStatus::Snoozed);
        proof {
            lemma_status_filter(fs, ReminderStatus::Snoozed);
        }
        let snoozed = match self.store.list(&fs) {
            Ok(v) => v,
            Err(e) => {
                proof {
                    assert forall|k: Seq<char>| #[trigger] m0.dom().contains(k) implies (
                    self.model()[k] == m0[k] || reminder_matches(
                        self.model()[k],
                        promoted(m0[k], now),
                    )) by {}
                }
                return Err(e);
            },
        };
        let mut i: usize = 0;
        while i < snoozed.len()
            invariant
                i <= snoozed@.len(),
                m0 == old(self).model(),
                listing(m1, fs, snoozed@),
                forall|r: Reminder| #[trigger] filter_matches(fs, r) <==> r.status == ReminderStatus::Snoozed,
                keyed_by_id(m1),
                keyed_by_id(self.model()),
                m1.dom() == m0.dom(),
                self.model().dom() == m0.dom(),
                forall|k: Seq<char>|
                    #[trigger] m0.dom().contains(k) ==> (if m0[k].status
                        == ReminderStatus::Pending {
                        reminder_matches(m1[k], promoted(m0[k], now))
                    } else {
                        m1[k] == m0[k]
                    }),
                forall|k: Seq<char>|
                    #[trigger] m0.dom().contains(k) ==> if lists_id(snoozed@.take(i as int), k) {
                        reminder_matches(self.model()[k], promoted(m0[k], now))
                    } else {
                        self.model()[k] == m1[k]
                    },
            decreases snoozed.len() - i,
        {
            let ghost m = self.model();
            let ghost k = snoozed@[i as int].id@;
            proof {
                assert(lists_id(snoozed@.take(i + 1), k)) by {
                    assert(snoozed@.take(i + 1)[i as int] == snoozed@[i as int]);
                }
                assert forall|k2: Seq<char>| k2 != k implies lists_id(
                    snoozed@.take(i + 1),
                    k2,
                ) == lists_id(snoozed@.take(i as int), k2) by {
                    if lists_id(snoozed@.take(i + 1), k2) {
                        let j = choose|j: int|
                            0 <= j < i + 1 && (#[trigger] snoozed@.take(i + 1)[j]).id@ == k2;
                        assert(snoozed@.take(i + 1)[j] == snoozed@.take(i as int)[j]);
                    }
                    if lists_id(snoozed@.take(i as int), k2) {
                        let j = choose|j: int|
                            0 <= j < i && (#[trigger] snoozed@.take(i as int)[j]).id@ == k2;
                        assert(snoozed@.take(i + 1)[j] == snoozed@.take(i as int)[j]);
                    }
                }
                assert(!lists_id(snoozed@.take(i as int), k)) by {
                    if lists_id(snoozed@.take(i as int), k) {
                        let j = choose|j: int|
                            0 <= j < i && (#[trigger] snoozed@.take(i as int)[j]).id@ == k;
                        assert(snoozed@[j].id@ != snoozed@[i as int].id@);
                    }
                }
                assert(m1.dom().contains(k));
                assert(m[k] == m1[k]);
                assert(m1[k].status == ReminderStatus::Snoozed);
                assert(m0[k].status == ReminderStatus::Snoozed) by {
                    if m0[k].status == ReminderStatus::Pending {
                        assert(reminder_matches(m1[k], promoted(m0[k], now)));
                    }
                }
                assert(m1[k] == m0[k]);
            }
            let wake = match snoozed[i].snoozed_until {
                Some(t) => t,
                None => snoozed[i].due_at,
            };
            if wake <= now {
                let c = snoozed[i].copy();
                let r2 = promote(c, now);
                proof {
                    lemma_reminder_matches_trans(c, snoozed@[i as int], m0[k]);
                }
                match self.store.update(&r2) {
                    Ok(()) => {},
                    Err(e) => {
                        proof {
                            assert(self.model() == m);
                            assert forall|k2: Seq<char>| #[trigger] m0.dom().contains(k2) implies (
                            self.model()[k2] == m0[k2] || reminder_matches(
                                self.model()[k2],
                                promoted(m0[k2], now),
                            )) by {}
                            assert(partly_promoted(m0, self.model(), now));
                        }
                        return Err(e);
                    },
                }
                proof {
                    self.lemma_keyed();
                    assert(reminder_matches(self.model()[k], promoted(m0[k], now)));
                }
            } else {
                proof {
                    assert(wake_time(m0[k]) > now);
                    assert(promoted(m0[k], now) == m0[k]);
                }
            }
            i = i + 1;
        }
        let ghost m2 = self.model();
        proof {
            assert forall|k: Seq<char>| #[trigger] m0.dom().contains(k) implies reminder_matches(
                m2[k],
                promoted(m0[k], now),
            ) by {
                assert(snoozed@.take(snoozed@.len() as int) =~= snoozed@);
                if m0[k].status == ReminderStatus::Snoozed {
                    assert(m1[k] == m0[k]);
                } else if lists_id(snoozed@, k) {
                    let j = choose|j: int| 0 <= j < snoozed@.len() && (#[trigger] snoozed@[j]).id@ == k;
                    assert(m1[snoozed@[j].id@].status == ReminderStatus::Snoozed);
                    if m0[k].status == ReminderStatus::Pending {
                        assert(reminder_matches(m1[k], promoted(m0[k], now)));
                    }
                    assert(false);
                } else if m0[k].status != ReminderStatus::Pending {
                    assert(m2[k] == m0[k]);
                }
            }
        }
        // Everything actionable, most urgent first.
        let fd = status_filter(ReminderStatus::Due);
        let fa = status_filter(ReminderStatus::AwaitingPermission);
        proof {
            lemma_status_filter(fd, ReminderStatus::Due);
            lemma_status_filter(fa, ReminderStatus::AwaitingPermission);
        }
        let due = match self.store.list(&fd) {
            Ok(v) => v,
            Err(e) => {
                return Err(e);
            },
        };
        let awaiting = match self.store.list(&fa) {
            Ok(v) => v,
            Err(e) => {
                return Err(e);
            },
        };
        let mut out = due;
        let ghost due_s = out@;
        let mut j: usize = 0;
        while j < awaiting.len()
            invariant
                j <= awaiting@.len(),
                listing(m2, fd, due_s),
                listing(m2, fa, awaiting@),
                forall|r: Reminder| #[trigger] filter_matches(fd, r) <==> r.status == ReminderStatus::Due,
                forall|r: Reminder|
                    #[trigger] filter_matches(fa, r) <==> r.status == ReminderStatus::AwaitingPermission,
                by_urgency(out@),
                distinct_ids(out@),
                forall|x: int|
                    0 <= x < out@.len() ==> m2.dom().contains((#[trigger] out@[x]).id@)
                        && reminder_matches(out@[x], m2[out@[x].id@]) && (m2[out@[x].id@].status
                        == ReminderStatus::Due || (m2[out@[x].id@].status
                        == ReminderStatus::AwaitingPermission && exists|y: int|
                        0 <= y < j && (#[trigger] awaiting@[y]).id@ == out@[x].id@)),
                forall|k: Seq<char>| lists_id(due_s, k) ==> #[trigger] lists_id(out@, k),
                forall|y: int| 0 <= y < j ==> lists_id(out@, (#[trigger] awaiting@[y]).id@),
            decreases awaiting.len() - j,
        {
            let c = awaiting[j].copy();
            let ghost cg = c;
            let ghost before = out@;
            proof {
                lemma_reminder_matches_trans(cg, awaiting@[j as int], m2[cg.id@]);
            }
            let p = insert_by_urgency(&mut out, c);
            proof {
                let t = out@;
                assert forall|x: int| 0 <= x < t.len() implies m2.dom().contains(
                    (#[trigger] t[x]).id@,
                ) && reminder_matches(t[x], m2[t[x].id@]) && (m2[t[x].id@].status
                    == ReminderStatus::Due || (m2[t[x].id@].status
                    == ReminderStatus::AwaitingPermission && exists|y: int|
                    0 <= y < j + 1 && (#[trigger] awaiting@[y]).id@ == t[x].id@)) by {
                    if x < p {
                        assert(t[x] == before[x]);
                    } else if x == p {
                        assert(t[x] == cg);
                        assert(awaiting@[j as int].id@ == t[x].id@);
                    } else {
                        assert(t[x] == before[x - 1]);
                    }
                }
                assert forall|a: int, b: int| 0 <= a < b < t.len() implies (
                #[trigger] t[a]).id@ != (#[trigger] t[b]).id@ by {
                    if a != p && b != p {
                        let a2 = if a < p {
                            a
                        } else {
                            a - 1
                        };
                        let b2 = if b < p {
                            b
                        } else {
                            b - 1
                        };
                        assert(t[a] == before[a2] && t[b] == before[b2]);
                    } else {
                        let o = if a == p {
                            b
                        } else {
                            a
                        };
                        let o2 = if o < p {
                            o
                        } else {
                            o - 1
                        };
                        assert(t[o] == before[o2]);
                        if m2[before[o2].id@].status == ReminderStatus::AwaitingPermission {
                            let y = choose|y: int|
                                0 <= y < j && (#[trigger] awaiting@[y]).id@ == before[o2].id@;
                            assert(awaiting@[y].id@ != awaiting@[j as int].id@);
                        }
                    }
                }
                assert forall|k: Seq<char>| lists_id(due_s, k) implies #[trigger] lists_id(t, k) by {
                    assert(lists_id(before, k));
                    let x = choose|x: int| 0 <= x < before.len() && (#[trigger] before[x]).id@ == k;
                    if x < p {
                        assert(t[x] == before[x]);
                    } else {
                        assert(t[x + 1] == before[x]);
                    }
                }
                assert forall|y: int| 0 <= y < j + 1 implies lists_id(
                    t,
                    (#[trigger] awaiting@[y]).id@,
                ) by {
                    if y == j {
                        assert(t[p as int] == cg);
                    } else {
                        let x = choose|x: int|
                            0 <= x < before.len() && (#[trigger] before[x]).id@ == awaiting@[y].id@;
                        if x < p {
                            assert(t[x] == before[x]);
                        } else {
                            assert(t[x + 1] == before[x]);
                        }
                    }
                }
            }
            j = j + 1;
        }
        proof {
            assert forall|k: Seq<char>|
                #[trigger] m2.dom().contains(k) && (m2[k].status == ReminderStatus::Due
                    || m2[k].status == ReminderStatus::AwaitingPermission) implies lists_id(
                out@,
                k,
            ) by {
                if m2[k].status == ReminderStatus::Due {
                    assert(lists_id(due_s, k));
                } else {
                    assert(lists_id(awaiting@, k));
                    let y = choose|y: int| 0 <= y < awaiting@.len() && (#[trigger] awaiting@[y]).id@ == k;
                    assert(lists_id(out@, awaiting@[y].id@));
                }
            }
        }
        Ok(out)
    }

    /// Promote what has come due, then return every actionable reminder,
    /// most urgent first (see `remind_me_at`), as of now.
    pub fn remind_me(&mut self) -> (res: Result<Vec<Reminder>, ReminderError>)
        ensures
            exists|now: Timestamp|
                0 <= now <= MAX_TIMESTAMP && #[trigger] remind_me_post(
                    old(self).model(),
                    final(self).model(),
                    now,
                    res,
                ),
    {
        let now = now_millis();
        self.remind_me_at(now)
    }
}

impl<S: ReminderStore> ReminderManager<S> {
    // -----------------------------------------------------------------------
    // Lifecycle mutations
    // -----------------------------------------------------------------------

    /// Snooze a reminder until `until` (see `snooze_step`).
    pub fn snooze(&mut self, id: &str, until: Timestamp) -> (res: Result<Reminder, ReminderError>)
        ensures
            match res {
                Ok(r2) => applied(
                    old(self).model(),
                    final(self).model(),
                    id@,
                    r2,
                    |c: Reminder| snooze_post(c, until, Ok(r2)),
                ),
                Err(_) => final(self).model() == old(self).model(),
            },
    {
        let c = match self.get(id) {
            Ok(c) => c,
            Err(e) => {
                return Err(e);
            },
        };
        let ghost cg = c;
        let r2 = match snooze_step(c, until) {
            Ok(r2) => r2,
            Err(e) => {
                return Err(e);
            },
        };
        match self.store.update(&r2) {
            Ok(()) => {},
            Err(e) => {
                return Err(e);
            },
        }
        proof {
            assert(reminder_matches(cg, old(self).model()[id@]));
        }
        Ok(r2)
    }

    /// Cancel a reminder (see `cancel_step`).
    pub fn cancel(&mut self, id: &str) -> (res: Result<Reminder, ReminderError>)
        ensures
            match res {
                Ok(r2) => applied(
                    old(self).model(),
                    final(self).model(),
                    id@,
                    r2,
                    |c: Reminder| cancel_post(c, Ok(r2)),
                ),
                Err(_) => final(self).model() == old(self).model(),
            },
    {
        let c = match self.get(id) {
            Ok(c) => c,
            Err(e) => {
                return Err(e);
            },
        };
        let ghost cg = c;
        let r2 = match cancel_step(c) {
            Ok(r2) => r2,
            Err(e) => {
                return Err(e);
            },
        };
        match self.store.update(&r2) {
            Ok(()) => {},
            Err(e) => {
                return Err(e);
            },
        }
        proof {
            assert(reminder_matches(cg, old(self).model()[id@]));
        }
        Ok(r2)
    }

    /// Approve a reminder for execution, recording who approved (see
    /// `approve_step`).
    pub fn approve(&mut self, id: &str, approved_by: &str) -> (res: Result<Reminder, ReminderError>)
        ensures
            match res {
                Ok(r2) => applied(
                    old(self).model(),
                    final(self).model(),
                    id@,
                    r2,
                    |c: Reminder| approve_post(c, approved_by@, Ok(r2)),
                ),
                Err(_) => final(self).model() == old(self).model(),
            },
    {
        let c = match self.get(id) {
            Ok(c) => c,
            Err(e) => {
                return Err(e);
            },
        };
        let ghost cg = c;
        let r2 = match approve_step(c, approved_by) {
            Ok(r2) => r2,
            Err(e) => {
                return Err(e);
            },
        };
        match self.store.update(&r2) {
            Ok(()) => {},
            Err(e) => {
                return Err(e);
            },
        }
        proof {
            assert(reminder_matches(cg, old(self).model()[id@]));
        }
        Ok(r2)
    }

    /// Start a reminder at `now` on behalf of `agent_id` (see
    /// `start_step`).
    pub fn start_at(&mut self, id: &str, agent_id: &str, now: Timestamp) -> (res: Result<
        Reminder,
        ReminderError,
    >)
        ensures
            match res {
                Ok(r2) => started_at(
                    old(self).model(),
                    final(self).model(),
                    id@,
                    agent_id@,
                    now,
                    r2,
                ),
                Err(_) => final(self).model() == old(self).model(),
            },
    {
        let c = match self.get(id) {
            Ok(c) => c,
            Err(e) => {
                return Err(e);
            },
        };
        let ghost cg = c;
        let r2 = match start_step(c, agent_id, now) {
            Ok(r2) => r2,
            Err(e) => {
                return Err(e);
            },
        };
        match self.store.update(&r2) {
            Ok(()) => {},
            Err(e) => {
                return Err(e);
            },
        }
        proof {
            assert(reminder_matches(cg, old(self).model()[id@]));
        }
        Ok(r2)
    }

    /// Start a reminder now on behalf of `agent_id`: `Due` to
    /// `InProgress`, opening an execution record. Non-autonomous
    /// reminders must be approved first.
    pub fn start(&mut self, id: &str, agent_id: &str) -> (res: Result<Reminder, ReminderError>)
        ensures
            match res {
                Ok(r2) => exists|now: Timestamp|
                    0 <= now <= MAX_TIMESTAMP && #[trigger] started_at(
                        old(self).model(),
                        final(self).model(),
                        id@,
                        agent_id@,
                        now,
                        r2,
                    ),
                Err(_) => final(self).model() == old(self).model(),
            },
    {
        let now = now_millis();
        self.start_at(id, agent_id, now)
    }

    /// Log an execution of a reminder, completed at `now` (see
    /// `record_step`).
    pub fn record_execution_at(&mut self, id: &str, record: ExecutionRecord, now: Timestamp) -> (res:
        Result<Reminder, ReminderError>)
        requires
            old(self).model().dom().contains(id@) ==> can_reschedule(
                old(self).model()[id@],
                record.result,
                now,
            ),
        ensures
            match res {
                Ok(r2) => recorded_at(
                    old(self).model(),
                    final(self).model(),
                    id@,
                    record,
                    now,
                    r2,
                ),
                Err(_) => final(self).model() == old(self).model(),
            },
    {
        let c = match self.get(id) {
            Ok(c) => c,
            Err(e) => {
                return Err(e);
            },
        };
        let ghost cg = c;
        let r2 = match record_step(c, record, now) {
            Ok(r2) => r2,
            Err(e) => {
                return Err(e);
            },
        };
        match self.store.update(&r2) {
            Ok(()) => {},
            Err(e) => {
                return Err(e);
            },
        }
        proof {
            assert(reminder_matches(cg, old(self).model()[id@]));
        }
        Ok(r2)
    }

    /// Log an execution of a reminder, completed now: on success a
    /// repeating reminder is reset for its next due time, a one-off one
    /// completes (see `record_step`). When the schedule's next due time
    /// would fall outside the representable range the execution is not
    /// logged and `Store` reports it.
    ///
    /// For the instant `now` the clock gave: a success is the execution
    /// logged at `now`, a failure leaves the store as it was, and a stored
    /// reminder whose next due time cannot be computed from `now` is never
    /// logged; what comes of the store's answer is `execution_target`.
    pub fn record_execution(&mut self, id: &str, record: ExecutionRecord) -> (res: Result<
        Reminder,
        ReminderError,
    >)
        ensures
            exists|now: Timestamp|
                #![trigger can_reschedule(old(self).model()[id@], record.result, now)]
                {
                    &&& 0 <= now <= MAX_TIMESTAMP
                    &&& res matches Ok(r2) ==> recorded_at(
                        old(self).model(),
                        final(self).model(),
                        id@,
                        record,
                        now,
                        r2,
                    )
                    &&& old(self).model().dom().contains(id@) && !can_reschedule(
                        old(self).model()[id@],
                        record.result,
                        now,
                    ) ==> res is Err
                },
            res is Err ==> final(self).model() == old(self).model(),
    {
        let now = now_millis();
        let fetched = self.get(id);
        let ghost g = fetched;
        let current = match execution_target(fetched, record.result, now) {
            Ok(r) => r,
            Err(e) => {
                proof {
                    let ghost fits = can_reschedule(old(self).model()[id@], record.result, now);
                    if g is Ok {
                        assert(reminder_matches(g->Ok_0, old(self).model()[id@]));
                    }
                }
                return Err(e);
            },
        };
        proof {
            assert(reminder_matches(current, old(self).model()[id@]));
        }
        assert(can_reschedule(old(self).model()[id@], record.result, now));
        self.record_execution_at(id, record, now)
    }

    /// Mark every reference with id `ref_id` stale; returns how many were
    /// not stale before. The record is rewritten only when that is not
    /// zero.
    pub fn mark_ref_stale(&mut self, id: &str, ref_id: &str) -> (res: Result<usize, ReminderError>)
        ensures
            match res {
                Ok(n) => marked_stale(old(self).model(), final(self).model(), id@, ref_id@, n),
                Err(_) => final(self).model() == old(self).model(),
            },
    {
        let c = match self.get(id) {
            Ok(c) => c,
            Err(e) => {
                return Err(e);
            },
        };
        let ghost cg = c;
        let (r2, n) = mark_stale_step(c, ref_id);
        if n > 0 {
            match self.store.update(&r2) {
                Ok(()) => {},
                Err(e) => {
                    return Err(e);
                },
            }
        }
        proof {
            assert(reminder_matches(cg, old(self).model()[id@]));
            assert(stale_post(cg, ref_id@, (r2, n)));
            assert(stale_written(old(self).model(), self.model(), r2, n));
        }
        Ok(n)
    }
}

} // verus!
