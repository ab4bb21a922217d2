//! In-process reminder store, for tests and consumers that need no
//! durable storage.
use vstd::prelude::*;

use crate::keyed::{index_of, lemma_index_of_push, lemma_index_of_range, lemma_index_of_scan};
use crate::reminders::error::ReminderError;
use crate::reminders::store::{
    by_urgency, distinct_ids, insert_by_urgency, listed_from, lists_id,
    ReminderStore,
};
use crate::reminders::types::{
    filter_matches, Reminder, ReminderFilter,
};
use crate::text::str_eq;

verus! {

/// Reminders are looked up by id.
pub open spec fn reminder_key() -> spec_fn(Reminder) -> Seq<char> {
    |r: Reminder| r.id@
}

/// The records of `v` by id (the first record under each id).
pub open spec fn map_of(v: Seq<Reminder>) -> Map<Seq<char>, Reminder> {
    Map::new(
        |k: Seq<char>| index_of(v, reminder_key(), k) >= 0,
        |k: Seq<char>| v[index_of(v, reminder_key(), k)],
    )
}

/// With distinct ids, each record is the one found under its id.
proof fn lemma_unique_index(v: Seq<Reminder>, j: int)
    requires
        distinct_ids(v),
        0 <= j < v.len(),
    ensures
        index_of(v, reminder_key(), v[j].id@) == j,
{
    assert forall|l: int| 0 <= l < j implies reminder_key()(#[trigger] v[l]) != v[j].id@ by {
        assert(v[l].id@ != v[j].id@);
    }
    lemma_index_of_scan(v, reminder_key(), v[j].id@, j);
}

/// A key present in `v` sits at the position `index_of` names.
proof fn lemma_map_lookup(v: Seq<Reminder>, k: Seq<char>)
    ensures
        map_of(v).dom().contains(k) <==> index_of(v, reminder_key(), k) >= 0,
        map_of(v).dom().contains(k) ==> map_of(v)[k] == v[index_of(v, reminder_key(), k)],
        map_of(v).dom().contains(k) ==> map_of(v)[k].id@ == k,
{
    lemma_index_of_range(v, reminder_key(), k);
}

proof fn lemma_map_update(v: Seq<Reminder>, i: int, x: Reminder)
    requires
        distinct_ids(v),
        0 <= i < v.len(),
        x.id@ == v[i].id@,
    ensures
        map_of(v.update(i, x)) == map_of(v).insert(x.id@, x),
        distinct_ids(v.update(i, x)),
{
    let t = v.update(i, x);
    assert forall|j: int| 0 <= j < t.len() implies reminder_key()(#[trigger] t[j]) == reminder_key()(
        v[j],
    ) by {}
    lemma_unique_index(v, i);
    assert forall|k: Seq<char>| true implies index_of(t, reminder_key(), k) == index_of(
        v,
        reminder_key(),
        k,
    ) by {
        crate::keyed::lemma_index_of_same_keys(t, v, reminder_key(), k);
    }
    assert forall|a: int, b: int| 0 <= a < b < t.len() implies (#[trigger] t[a]).id@ != (
    #[trigger] t[b]).id@ by {
        assert(t[a].id@ == v[a].id@ && t[b].id@ == v[b].id@);
    }
    assert forall|k: Seq<char>| #[trigger] map_of(t).dom().contains(k) implies map_of(t)[k] == map_of(
        v,
    ).insert(x.id@, x)[k] by {
        lemma_index_of_range(v, reminder_key(), k);
        if k != x.id@ {
            assert(index_of(v, reminder_key(), k) != i);
        }
    }
    assert(map_of(t) =~= map_of(v).insert(x.id@, x));
}

proof fn lemma_map_push(v: Seq<Reminder>, x: Reminder)
    requires
        distinct_ids(v),
        index_of(v, reminder_key(), x.id@) < 0,
    ensures
        map_of(v.push(x)) == map_of(v).insert(x.id@, x),
        distinct_ids(v.push(x)),
{
    let t = v.push(x);
    lemma_index_of_range(v, reminder_key(), x.id@);
    assert forall|k: Seq<char>| true implies #[trigger] index_of(t, reminder_key(), k) == (if k
        == x.id@ {
        v.len() as int
    } else {
        index_of(v, reminder_key(), k)
    }) by {
        lemma_index_of_push(v, reminder_key(), x, k);
    }
    assert forall|a: int, b: int| 0 <= a < b < t.len() implies (#[trigger] t[a]).id@ != (
    #[trigger] t[b]).id@ by {
        if b == v.len() {
            assert(t[a] == v[a]);
            assert(reminder_key()(v[a]) != x.id@);
        } else {
            assert(t[a] == v[a] && t[b] == v[b]);
        }
    }
    assert forall|k: Seq<char>| #[trigger] map_of(t).dom().contains(k) implies map_of(t)[k] == map_of(
        v,
    ).insert(x.id@, x)[k] by {
        lemma_index_of_range(v, reminder_key(), k);
        assert(index_of(t, reminder_key(), k) == (if k == x.id@ {
            v.len() as int
        } else {
            index_of(v, reminder_key(), k)
        }));
    }
    assert(map_of(t) =~= map_of(v).insert(x.id@, x));
}

proof fn lemma_map_remove(v: Seq<Reminder>, i: int)
    requires
        distinct_ids(v),
        0 <= i < v.len(),
    ensures
        map_of(v.remove(i)) == map_of(v).remove(v[i].id@),
        distinct_ids(v.remove(i)),
{
    let t = v.remove(i);
    let k0 = v[i].id@;
    assert forall|a: int, b: int| 0 <= a < b < t.len() implies (#[trigger] t[a]).id@ != (
    #[trigger] t[b]).id@ by {
        let a2 = if a < i {
            a
        } else {
            a + 1
        };
        let b2 = if b < i {
            b
        } else {
            b + 1
        };
        assert(t[a] == v[a2] && t[b] == v[b2]);
    }
    assert forall|k: Seq<char>| true implies (#[trigger] map_of(t).dom().contains(k)
        == map_of(v).remove(k0).dom().contains(k)) && (map_of(t).dom().contains(k) ==> map_of(t)[k]
        == map_of(v)[k]) by {
        lemma_index_of_range(v, reminder_key(), k);
        lemma_index_of_range(t, reminder_key(), k);
        let j = index_of(v, reminder_key(), k);
        let jt = index_of(t, reminder_key(), k);
        if jt >= 0 {
            let j2 = if jt < i {
                jt
            } else {
                jt + 1
            };
            assert(t[jt] == v[j2]);
            lemma_unique_index(v, j2);
            assert(j2 != i);
        }
        if j >= 0 && j != i {
            let jt2 = if j < i {
                j
            } else {
                j - 1
            };
            assert(t[jt2] == v[j]);
            lemma_unique_index(t, jt2);
        }
        if j == i {
            assert(k == k0);
        }
    }
    assert(map_of(t) =~= map_of(v).remove(k0));
}

fn find_reminder(v: &Vec<Reminder>, id: &str) -> (res: Option<usize>)
    ensures
        match res {
            Some(i) => i == index_of(v@, reminder_key(), id@) && i < v@.len(),
            None => index_of(v@, reminder_key(), id@) < 0,
        },
{
    let mut i: usize = 0;
    while i < v.len()
        invariant
            i <= v@.len(),
            forall|j: int| 0 <= j < i ==> reminder_key()(#[trigger] v@[j]) != id@,
        decreases v.len() - i,
    {
        if str_eq(v[i].id.as_str(), id) {
            proof {
                lemma_index_of_scan(v@, reminder_key(), id@, i as int);
            }
            return Some(i);
        }
        i = i + 1;
    }
    proof {
        lemma_index_of_scan(v@, reminder_key(), id@, i as int);
    }
    None
}

/// Reminders held in memory, one record per id.
pub struct MemoryReminderStore {
    reminders: Vec<Reminder>,
}

impl MemoryReminderStore {
    #[verifier::type_invariant]
    spec fn one_per_id(self) -> bool {
        distinct_ids(self.reminders@)
    }

    /// An empty store.
    pub fn new() -> (s: MemoryReminderStore)
        ensures
            s.contents() == Map::<Seq<char>, Reminder>::empty(),
    {
        let s = MemoryReminderStore { reminders: Vec::new() };
        proof {
            assert(s.contents() =~= Map::<Seq<char>, Reminder>::empty());
        }
        s
    }
}

impl Default for MemoryReminderStore {
    fn default() -> (s: Self)
        ensures
            s.contents() == Map::<Seq<char>, Reminder>::empty(),
    {
        MemoryReminderStore::new()
    }
}

impl ReminderStore for MemoryReminderStore {
    closed spec fn contents(&self) -> Map<Seq<char>, Reminder> {
        map_of(self.reminders@)
    }

    proof fn lemma_keyed(&self) {
        assert forall|k: Seq<char>| #[trigger] self.contents().dom().contains(k) implies self.contents()[k].id@
            == k by {
            lemma_map_lookup(self.reminders@, k);
        }
    }

    fn save(&mut self, reminder: &Reminder) -> (res: Result<(), ReminderError>)
        ensures
            res is Ok,
    {
        proof {
            use_type_invariant(&*self);
        }
        let mut v: Vec<Reminder> = Vec::new();
        std::mem::swap(&mut v, &mut self.reminders);
        let ghost v0 = v@;
        let c = reminder.copy();
        let ghost cg = c;
        match find_reminder(&v, reminder.id.as_str()) {
            Some(i) => {
                proof {
                    lemma_index_of_range(v0, reminder_key(), reminder.id@);
                    lemma_map_update(v0, i as int, cg);
                }
                v.set(i, c);
            },
            None => {
                proof {
                    lemma_map_push(v0, cg);
                }
                v.push(c);
            },
        }
        self.reminders = v;
        Ok(())
    }

    fn get(&self, id: &str) -> (res: Result<Option<Reminder>, ReminderError>)
        ensures
            res is Ok,
    {
        proof {
            lemma_map_lookup(self.reminders@, id@);
        }
        match find_reminder(&self.reminders, id) {
            Some(i) => Ok(Some(self.reminders[i].copy())),
            None => Ok(None),
        }
    }

    fn update(&mut self, reminder: &Reminder) -> (res: Result<(), ReminderError>)
        ensures
            res is Ok <==> old(self).contents().dom().contains(reminder.id@),
            res is Err ==> (res matches Err(ReminderError::NotFound(s)) && s@ == reminder.id@),
    {
        proof {
            use_type_invariant(&*self);
            lemma_map_lookup(self.reminders@, reminder.id@);
        }
        match find_reminder(&self.reminders, reminder.id.as_str()) {
            None => Err(ReminderError::NotFound(reminder.id.clone())),
            Some(i) => {
                let mut v: Vec<Reminder> = Vec::new();
                std::mem::swap(&mut v, &mut self.reminders);
                let ghost v0 = v@;
                let c = reminder.copy();
                proof {
                    lemma_index_of_range(v0, reminder_key(), reminder.id@);
                    lemma_map_update(v0, i as int, c);
                }
                v.set(i, c);
                self.reminders = v;
                Ok(())
            },
        }
    }

    fn delete(&mut self, id: &str) -> (res: Result<bool, ReminderError>)
        ensures
            res is Ok,
    {
        proof {
            use_type_invariant(&*self);
            lemma_map_lookup(self.reminders@, id@);
        }
        match find_reminder(&self.reminders, id) {
            None => {
                proof {
                    assert(self.contents() =~= self.contents().remove(id@));
                }
                Ok(false)
            },
            Some(i) => {
                let mut v: Vec<Reminder> = Vec::new();
                std::mem::swap(&mut v, &mut self.reminders);
                let ghost v0 = v@;
                proof {
                    lemma_index_of_range(v0, reminder_key(), id@);
                    lemma_map_remove(v0, i as int);
                }
                v.remove(i);
                self.reminders = v;
                Ok(true)
            },
        }
    }

    fn list(&self, filter: &ReminderFilter) -> (res: Result<Vec<Reminder>, ReminderError>)
        ensures
            res is Ok,
    {
        proof {
            use_type_invariant(self);
        }
        let v = &self.reminders;
        let ghost m = map_of(v@);
        let mut out: Vec<Reminder> = Vec::new();
        let mut i: usize = 0;
        while i < v.len()
            invariant
                i <= v@.len(),
                m == map_of(v@),
                distinct_ids(v@),
                by_urgency(out@),
                distinct_ids(out@),
                forall|x: int| 0 <= x < out@.len() ==> listed_from(m, *filter, #[trigger] out@[x]),
                forall|x: int|
                    0 <= x < out@.len() ==> exists|j: int|
                        0 <= j < i && (#[trigger] out@[x]).id@ == (#[trigger] v@[j]).id@,
                forall|j: int|
                    0 <= j < i && filter_matches(*filter, #[trigger] v@[j]) ==> lists_id(
                        out@,
                        v@[j].id@,
                    ),
            decreases v.len() - i,
        {
            if filter.matches(&v[i]) {
                let c = v[i].copy();
                let ghost old_out = out@;
                let ghost cg = c;
                proof {
                    lemma_unique_index(v@, i as int);
                    lemma_map_lookup(v@, v@[i as int].id@);
                    assert(listed_from(m, *filter, cg));
                }
                let p = insert_by_urgency(&mut out, c);
                proof {
                    let t = out@;
                    assert forall|x: int| 0 <= x < t.len() implies listed_from(
                        m,
                        *filter,
                        #[trigger] t[x],
                    ) && exists|j: int| 0 <= j < i + 1 && t[x].id@ == (#[trigger] v@[j]).id@ by {
                        if x < p {
                            assert(t[x] == old_out[x]);
                        } else if x == p {
                            assert(t[x] == cg);
                        } else {
                            assert(t[x] == old_out[x - 1]);
                        }
                    }
                    assert forall|a: int, b: int| 0 <= a < b < t.len() implies (
                    #[trigger] t[a]).id@ != (#[trigger] t[b]).id@ by {
                        if a != p && b != p {
                            let a2 = if a < p {
                                a
                            } else {
                                a - 1
                            };
                            let b2 = if b < p {
                                b
                            } else {
                                b - 1
                            };
                            assert(t[a] == old_out[a2] && t[b] == old_out[b2]);
                        } else {
                            let o = if a == p {
                                b
                            } else {
                                a
                            };
                            let o2 = if o < p {
                                o
                            } else {
                                o - 1
                            };
                            assert(t[o] == old_out[o2]);
                            let j = choose|j: int|
                                0 <= j < i && (#[trigger] old_out[o2]).id@ == (
                                #[trigger] v@[j]).id@;
                            assert(v@[j].id@ != v@[i as int].id@);
                        }
                    }
                    assert forall|j: int|
                        0 <= j < i + 1 && filter_matches(*filter, #[trigger] v@[j]) implies lists_id(
                        t,
                        v@[j].id@,
                    ) by {
                        if j < i {
                            let x = choose|x: int|
                                0 <= x < old_out.len() && (#[trigger] old_out[x]).id@ == v@[j].id@;
                            if x < p {
                                assert(t[x] == old_out[x]);
                            } else {
                                assert(t[x + 1] == old_out[x]);
                            }
                        } else {
                            assert(t[p as int] == cg);
                        }
                    }
                }
            }
            i = i + 1;
        }
        proof {
            assert forall|k: Seq<char>|
                #[trigger] m.dom().contains(k) && filter_matches(*filter, m[k]) implies lists_id(
                out@,
                k,
            ) by {
                lemma_map_lookup(v@, k);
                lemma_index_of_range(v@, reminder_key(), k);
                let j = index_of(v@, reminder_key(), k);
                assert(filter_matches(*filter, v@[j]));
            }
        }
        Ok(out)
    }
}

} // verus!
