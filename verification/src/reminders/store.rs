//! Storage contract for reminders, and the urgency order listings use.
use vstd::prelude::*;

use crate::reminders::error::ReminderError;
use crate::reminders::types::{filter_matches, reminder_matches, Reminder, ReminderFilter};
use crate::text::owned;

verus! {

/// `a` is at least as urgent as `b`: a smaller priority number, or the
/// same priority and a due time no later.
pub open spec fn urgency_le(a: Reminder, b: Reminder) -> bool {
    a.priority.number() < b.priority.number() || (a.priority.number() == b.priority.number()
        && a.due_at <= b.due_at)
}

/// Ordered by priority, then by due time.
pub open spec fn by_urgency(v: Seq<Reminder>) -> bool {
    forall|i: int, j: int| 0 <= i < j < v.len() ==> urgency_le(#[trigger] v[i], #[trigger] v[j])
}

/// Every record is stored under its own id.
pub open spec fn keyed_by_id(m: Map<Seq<char>, Reminder>) -> bool {
    forall|k: Seq<char>| #[trigger] m.dom().contains(k) ==> m[k].id@ == k
}

/// `new` is `old` with `r` stored under its id, added or replacing the
/// record there.
pub open spec fn stored(old: Map<Seq<char>, Reminder>, new: Map<Seq<char>, Reminder>, r: Reminder) -> bool {
    &&& new.dom() == old.dom().insert(r.id@)
    &&& reminder_matches(new[r.id@], r)
    &&& forall|k: Seq<char>| k != r.id@ && #[trigger] old.dom().contains(k) ==> new[k] == old[k]
}

/// `x` is the record of `m` under its id, and passes `f`.
pub open spec fn listed_from(m: Map<Seq<char>, Reminder>, f: ReminderFilter, x: Reminder) -> bool {
    &&& m.dom().contains(x.id@)
    &&& reminder_matches(x, m[x.id@])
    &&& filter_matches(f, m[x.id@])
}

/// Some element of `v` has id `k`.
pub open spec fn lists_id(v: Seq<Reminder>, k: Seq<char>) -> bool {
    exists|i: int| 0 <= i < v.len() && (#[trigger] v[i]).id@ == k
}

/// No two elements of `v` share an id.
pub open spec fn distinct_ids(v: Seq<Reminder>) -> bool {
    forall|i: int, j: int| 0 <= i < j < v.len() ==> (#[trigger] v[i]).id@ != (#[trigger] v[j]).id@
}

/// `v` lists the records of `m` that pass `f`: one per id, ordered by
/// urgency.
pub open spec fn listing(m: Map<Seq<char>, Reminder>, f: ReminderFilter, v: Seq<Reminder>) -> bool {
    &&& forall|i: int| 0 <= i < v.len() ==> listed_from(m, f, #[trigger] v[i])
    &&& forall|k: Seq<char>|
        #[trigger] m.dom().contains(k) && filter_matches(f, m[k]) ==> lists_id(v, k)
    &&& distinct_ids(v)
    &&& by_urgency(v)
}

/// The refusal of a store that does not keep reminders.
pub open spec fn unsupported(e: ReminderError) -> bool {
    e matches ReminderError::Store(m) && m@ == "reminder storage not supported"@
}

/// Durable storage for reminders. Backends implement it; the default
/// methods report that reminder storage is not supported.
pub trait ReminderStore {
    /// The stored reminders, by id.
    spec fn contents(&self) -> Map<Seq<char>, Reminder>;

    /// Every record is stored under its own id.
    proof fn lemma_keyed(&self)
        ensures
            keyed_by_id(self.contents()),
    ;

    /// Persist a reminder under its id, replacing any record there.
    fn save(&mut self, reminder: &Reminder) -> (res: Result<(), ReminderError>)
        ensures
            res is Ok ==> stored(old(self).contents(), final(self).contents(), *reminder),
            res is Err ==> final(self).contents() == old(self).contents(),
        default_ensures
            res matches Err(e) && unsupported(e),
    {
        Err(ReminderError::Store(owned("reminder storage not supported")))
    }

    /// The reminder with this id, if any.
    fn get(&self, id: &str) -> (res: Result<Option<Reminder>, ReminderError>)
        ensures
            res matches Ok(o) ==> match o {
                Some(r) => self.contents().dom().contains(id@) && reminder_matches(
                    r,
                    self.contents()[id@],
                ),
                None => !self.contents().dom().contains(id@),
            },
        default_ensures
            res matches Err(e) && unsupported(e),
    {
        Err(ReminderError::Store(owned("reminder storage not supported")))
    }

    /// Overwrite the record stored under the reminder's id; refused with
    /// `NotFound` when there is none.
    fn update(&mut self, reminder: &Reminder) -> (res: Result<(), ReminderError>)
        ensures
            res is Ok ==> old(self).contents().dom().contains(reminder.id@) && stored(
                old(self).contents(),
                final(self).contents(),
                *reminder,
            ),
            res is Err ==> final(self).contents() == old(self).contents(),
        default_ensures
            res matches Err(e) && unsupported(e),
    {
        Err(ReminderError::Store(owned("reminder storage not supported")))
    }

    /// Delete a reminder for good; whether there was one.
    fn delete(&mut self, id: &str) -> (res: Result<bool, ReminderError>)
        ensures
            res matches Ok(b) ==> b == old(self).contents().dom().contains(id@)
                && final(self).contents() == old(self).contents().remove(id@),
            res is Err ==> final(self).contents() == old(self).contents(),
        default_ensures
            res matches Err(e) && unsupported(e),
    {
        Err(ReminderError::Store(owned("reminder storage not supported")))
    }

    /// Every reminder that passes `filter`, ordered by priority, then due
    /// time.
    fn list(&self, filter: &ReminderFilter) -> (res: Result<Vec<Reminder>, ReminderError>)
        ensures
            res matches Ok(v) ==> listing(self.contents(), *filter, v@),
        default_ensures
            res matches Err(e) && unsupported(e),
    {
        Err(ReminderError::Store(owned("reminder storage not supported")))
    }
}

fn urgency_le_exec(a: &Reminder, b: &Reminder) -> (r: bool)
    ensures
        r == urgency_le(*a, *b),
{
    let pa = a.priority.as_u8();
    let pb = b.priority.as_u8();
    pa < pb || (pa == pb && a.due_at <= b.due_at)
}

/// Insert `e` into a list ordered by urgency, after every element at
/// least as urgent: the order is kept, and equally urgent elements keep
/// their arrival order. Returns where `e` went.
pub fn insert_by_urgency(out: &mut Vec<Reminder>, e: Reminder) -> (p: usize)
    requires
        by_urgency(old(out)@),
    ensures
        p <= old(out)@.len(),
        final(out)@ == old(out)@.insert(p as int, e),
        by_urgency(final(out)@),
{
    let mut p: usize = 0;
    while p < out.len()
        invariant
            p <= out@.len(),
            forall|j: int| 0 <= j < p ==> urgency_le(#[trigger] out@[j], e),
        ensures
            p <= out@.len(),
            forall|j: int| 0 <= j < p ==> urgency_le(#[trigger] out@[j], e),
            p < out@.len() ==> !urgency_le(out@[p as int], e),
        decreases out.len() - p,
    {
        if !urgency_le_exec(&out[p], &e) {
            break;
        }
        p = p + 1;
    }
    let ghost s = out@;
    let ghost ep = e;
    out.insert(p, e);
    proof {
        let t = out@;
        assert forall|i: int, j: int| 0 <= i < j < t.len() implies urgency_le(
            #[trigger] t[i],
            #[trigger] t[j],
        ) by {
            if j < p {
                assert(t[i] == s[i] && t[j] == s[j]);
            } else if j == p {
                assert(t[i] == s[i]);
            } else if i == p {
                assert(t[j] == s[j - 1]);
                assert(!urgency_le(s[p as int], ep));
                if j - 1 > p {
                    assert(urgency_le(s[p as int], s[j - 1]));
                }
            } else if i < p {
                assert(t[i] == s[i] && t[j] == s[j - 1]);
            } else {
                assert(t[i] == s[i - 1] && t[j] == s[j - 1]);
            }
        }
    }
    p
}

} // verus!
