//! `TaskStore`: plans and their tasks, kept per ref (branch) name.
//!
//! Under each ref the store holds its plans ordered by name, and under
//! each plan its tasks ordered by id. Every operation names the ref it
//! works on and leaves every other ref exactly as it was.
use vstd::prelude::*;
use vstd::string::*;

use crate::keyed::{
    index_of, insert_pos, lemma_index_of_push, lemma_index_of_range, lemma_index_of_same_keys,
    first_index, lemma_first_index_range, lemma_first_index_scan, lemma_index_of_scan, lemma_insert_pos_scan, lemma_sorted_insert,
    lemma_sorted_remove, lemma_sorted_update, sorted_by,
};
use crate::tasks::error::TaskStoreError;
use crate::tasks::history::{
    assign_description, commit_of, describe_assign, describe_plan, describe_set_priority,
    describe_task, on_task, set_priority_description, IntentCategory, PlanCommit,
};
use crate::tasks::state::{check_transition, Transition};
use crate::tasks::verify::{Verifier, VerifyEntry, VerifyReport};
use crate::tasks::types::{
    task_id_number, task_id_number_roundtrip, task_id_text, task_matches, AddTaskOptions, Plan,
    PlanStatus, Priority, Proof, Task, TaskId, TaskStatus,
};
use crate::text::{
    all_digits, owned, seq_blank, seq_ends_with_char, seq_lt, str_ends_with_char, str_eq, str_is_blank, str_lt,
};
use crate::time::{now_millis, Timestamp, MAX_TIMESTAMP};

verus! {

/// A plan's record together with its tasks, ordered by task id.
pub struct PlanEntry {
    pub meta: Plan,
    pub tasks: Vec<Task>,
}

/// Everything stored under one ref: its plans, ordered by name.
pub struct RefSpace {
    pub name: String,
    pub plans: Vec<PlanEntry>,
}

/// A handle bound to a path prefix and an acting agent. All operations on
/// plans and tasks go through a `TaskStore`.
pub struct TaskStore {
    prefix: String,
    agent_id: String,
    refs: Vec<RefSpace>,
    log: Vec<PlanCommit>,
}

/// Refs are looked up by name.
pub open spec fn ref_key() -> spec_fn(RefSpace) -> Seq<char> {
    |r: RefSpace| r.name@
}

/// Plans are looked up, and ordered, by name.
pub open spec fn plan_key() -> spec_fn(PlanEntry) -> Seq<char> {
    |p: PlanEntry| p.meta.name@
}

/// Tasks are looked up, and ordered, by id.
pub open spec fn task_key() -> spec_fn(Task) -> Seq<char> {
    |t: Task| t.id.0@
}

/// Position of the plan named `name`, or `-1`.
pub open spec fn plan_index(ps: Seq<PlanEntry>, name: Seq<char>) -> int {
    index_of(ps, plan_key(), name)
}

/// Position of the task with id `id`, or `-1`.
pub open spec fn task_index(ts: Seq<Task>, id: Seq<char>) -> int {
    index_of(ts, task_key(), id)
}

/// The tasks of plan `name` in `ps` (empty when there is no such plan).
pub open spec fn tasks_in(ps: Seq<PlanEntry>, name: Seq<char>) -> Seq<Task> {
    let i = plan_index(ps, name);
    if i >= 0 {
        ps[i].tasks@
    } else {
        Seq::empty()
    }
}

impl TaskStore {
    /// The path prefix, without a trailing `/`.
    pub closed spec fn spec_prefix(&self) -> String {
        self.prefix
    }

    /// The agent recorded as author of every change.
    pub closed spec fn spec_agent_id(&self) -> String {
        self.agent_id
    }

    /// Every change the store has written, oldest first.
    pub closed spec fn spec_history(&self) -> Seq<PlanCommit> {
        self.log@
    }

    /// The plans stored under ref `r`, ordered by name.
    pub closed spec fn plans_of(&self, r: Seq<char>) -> Seq<PlanEntry> {
        let i = index_of(self.refs@, ref_key(), r);
        if i >= 0 {
            self.refs@[i].plans@
        } else {
            Seq::empty()
        }
    }

    /// Plans are ordered by name and tasks by id, under every ref.
    pub closed spec fn wf(&self) -> bool {
        forall|i: int|
            0 <= i < self.refs@.len() ==> #[trigger] ordered_plans(self.refs@[i].plans@)
    }

    /// What `wf` means for the plans of any one ref.
    pub proof fn lemma_wf_plans(&self, r: Seq<char>)
        requires
            self.wf(),
        ensures
            ordered_plans(self.plans_of(r)),
    {
        lemma_index_of_range(self.refs@, ref_key(), r);
    }
}

/// Plans strictly ordered by name, and each plan's tasks strictly
/// ordered by id.
pub open spec fn ordered_plans(ps: Seq<PlanEntry>) -> bool {
    &&& sorted_by(ps, plan_key())
    &&& forall|k: int| 0 <= k < ps.len() ==> sorted_by(#[trigger] ps[k].tasks@, task_key())
}

/// `new` differs from `old` at most in the plans under ref `r`.
pub open spec fn unchanged_except(old: TaskStore, new: TaskStore, r: Seq<char>) -> bool {
    &&& new.spec_prefix() == old.spec_prefix()
    &&& new.spec_agent_id() == old.spec_agent_id()
    &&& forall|r2: Seq<char>| r2 != r ==> #[trigger] new.plans_of(r2) == old.plans_of(r2)
}

/// The history of `new` is that of `old` with one more plan change to
/// ref `r` by the store's agent, described by `description`, when `wrote`;
/// else it is unchanged.
pub open spec fn logged(old: TaskStore, new: TaskStore, r: Seq<char>, description: Seq<char>, wrote: bool) -> bool {
    if wrote {
        &&& new.spec_history().len() > 0
        &&& new.spec_history() == old.spec_history().push(new.spec_history().last())
        &&& commit_of(new.spec_history().last(), r, old.spec_agent_id(), description)
    } else {
        new.spec_history() == old.spec_history()
    }
}

/// The plan record `create_plan` makes.
pub open spec fn fresh_plan(
    p: Plan,
    name: Seq<char>,
    description: Option<String>,
    agent: String,
    now: Timestamp,
) -> bool {
    &&& p.name@ == name
    &&& p.description == description
    &&& p.status == PlanStatus::Active
    &&& p.created_at == now
    &&& p.created_by == agent
    &&& p.archived_at is None
    &&& p.summary is None
    &&& p.closed_at is None
    &&& p.closed_by is None
}

/// Outcome of `create_plan` at time `now`.
pub open spec fn create_plan_post(
    old: TaskStore,
    new: TaskStore,
    r: Seq<char>,
    name: Seq<char>,
    description: Option<String>,
    now: Timestamp,
    res: Result<Plan, TaskStoreError>,
) -> bool {
    let ps = old.plans_of(r);
    let k = insert_pos(ps, plan_key(), name);
    if plan_index(ps, name) >= 0 {
        &&& res matches Err(TaskStoreError::PlanAlreadyExists(n)) && n@ == name
        &&& new == old
    } else {
        &&& res matches Ok(p) && fresh_plan(p, name, description, old.spec_agent_id(), now)
            && new.plans_of(r).len() == ps.len() + 1 && new.plans_of(r)[k].meta == p
            && new.plans_of(r)[k].tasks@.len() == 0 && new.plans_of(r).remove(k) == ps
        &&& unchanged_except(old, new, r)
    }
}

// ---------------------------------------------------------------------------
// How an update of one ref shows in the model
// ---------------------------------------------------------------------------

/// Replacing the entry of ref `r` in place (same name, same position)
/// changes `plans_of(r)` only.
proof fn lemma_ref_updated(old: TaskStore, new: TaskStore, r: Seq<char>, ri: int)
    requires
        0 <= ri,
        index_of(old.refs@, ref_key(), r) == ri,
        new.refs@.len() == old.refs@.len(),
        forall|j: int| 0 <= j < old.refs@.len() && j != ri ==> new.refs@[j] == old.refs@[j],
        new.refs@[ri].name@ == old.refs@[ri].name@,
        new.prefix == old.prefix,
        new.agent_id == old.agent_id,
    ensures
        new.plans_of(r) == new.refs@[ri].plans@,
        unchanged_except(old, new, r),
        old.wf() && ordered_plans(new.refs@[ri].plans@) ==> new.wf(),
{
    lemma_index_of_range(old.refs@, ref_key(), r);
    assert forall|j: int| 0 <= j < new.refs@.len() implies ref_key()(#[trigger] new.refs@[j])
        == ref_key()(old.refs@[j]) by {
        if j != ri {
            assert(new.refs@[j] == old.refs@[j]);
        }
    }
    lemma_index_of_same_keys(new.refs@, old.refs@, ref_key(), r);
    assert forall|r2: Seq<char>| r2 != r implies #[trigger] new.plans_of(r2) == old.plans_of(r2) by {
        lemma_index_of_same_keys(new.refs@, old.refs@, ref_key(), r2);
        lemma_index_of_range(old.refs@, ref_key(), r2);
    }
    if old.wf() && ordered_plans(new.refs@[ri].plans@) {
        assert forall|i: int| 0 <= i < new.refs@.len() implies #[trigger] ordered_plans(
            new.refs@[i].plans@,
        ) by {
            if i != ri {
                assert(new.refs@[i] == old.refs@[i]);
            }
        }
    }
}

/// Appending a ref named `r` that was absent makes its plans
/// `plans_of(r)` and changes nothing else.
proof fn lemma_ref_pushed(old: TaskStore, new: TaskStore, r: Seq<char>, rs: RefSpace)
    requires
        index_of(old.refs@, ref_key(), r) < 0,
        new.refs@ == old.refs@.push(rs),
        rs.name@ == r,
        new.prefix == old.prefix,
        new.agent_id == old.agent_id,
    ensures
        new.plans_of(r) == rs.plans@,
        unchanged_except(old, new, r),
        old.wf() && ordered_plans(rs.plans@) ==> new.wf(),
{
    lemma_index_of_push(old.refs@, ref_key(), rs, r);
    assert forall|r2: Seq<char>| r2 != r implies #[trigger] new.plans_of(r2) == old.plans_of(r2) by {
        lemma_index_of_push(old.refs@, ref_key(), rs, r2);
        lemma_index_of_range(old.refs@, ref_key(), r2);
    }
    if old.wf() && ordered_plans(rs.plans@) {
        assert forall|i: int| 0 <= i < new.refs@.len() implies #[trigger] ordered_plans(
            new.refs@[i].plans@,
        ) by {
            if i < old.refs@.len() {
                assert(new.refs@[i] == old.refs@[i]);
            }
        }
    }
}

// ---------------------------------------------------------------------------
// Lookups
// ---------------------------------------------------------------------------

fn find_ref(refs: &Vec<RefSpace>, r: &str) -> (res: Option<usize>)
    ensures
        match res {
            Some(i) => i == index_of(refs@, ref_key(), r@),
            None => index_of(refs@, ref_key(), r@) < 0,
        },
{
    let mut i: usize = 0;
    while i < refs.len()
        invariant
            i <= refs@.len(),
            forall|j: int| 0 <= j < i ==> ref_key()(#[trigger] refs@[j]) != r@,
        decreases refs.len() - i,
    {
        if str_eq(refs[i].name.as_str(), r) {
            proof {
                lemma_index_of_scan(refs@, ref_key(), r@, i as int);
            }
            return Some(i);
        }
        i = i + 1;
    }
    proof {
        lemma_index_of_scan(refs@, ref_key(), r@, i as int);
    }
    None
}

fn find_plan(plans: &Vec<PlanEntry>, name: &str) -> (res: Option<usize>)
    ensures
        match res {
            Some(i) => i == plan_index(plans@, name@),
            None => plan_index(plans@, name@) < 0,
        },
{
    let mut i: usize = 0;
    while i < plans.len()
        invariant
            i <= plans@.len(),
            forall|j: int| 0 <= j < i ==> plan_key()(#[trigger] plans@[j]) != name@,
        decreases plans.len() - i,
    {
        if str_eq(plans[i].meta.name.as_str(), name) {
            proof {
                lemma_index_of_scan(plans@, plan_key(), name@, i as int);
            }
            return Some(i);
        }
        i = i + 1;
    }
    proof {
        lemma_index_of_scan(plans@, plan_key(), name@, i as int);
    }
    None
}

fn find_task(tasks: &Vec<Task>, id: &str) -> (res: Option<usize>)
    ensures
        match res {
            Some(i) => i == task_index(tasks@, id@),
            None => task_index(tasks@, id@) < 0,
        },
{
    let mut i: usize = 0;
    while i < tasks.len()
        invariant
            i <= tasks@.len(),
            forall|j: int| 0 <= j < i ==> task_key()(#[trigger] tasks@[j]) != id@,
        decreases tasks.len() - i,
    {
        if str_eq(tasks[i].id.0.as_str(), id) {
            proof {
                lemma_index_of_scan(tasks@, task_key(), id@, i as int);
            }
            return Some(i);
        }
        i = i + 1;
    }
    proof {
        lemma_index_of_scan(tasks@, task_key(), id@, i as int);
    }
    None
}

fn plan_insert_pos(plans: &Vec<PlanEntry>, name: &str) -> (k: usize)
    ensures
        k == insert_pos(plans@, plan_key(), name@),
{
    let mut i: usize = 0;
    while i < plans.len()
        invariant
            i <= plans@.len(),
            forall|j: int| 0 <= j < i ==> !seq_lt(name@, plan_key()(#[trigger] plans@[j])),
        decreases plans.len() - i,
    {
        if str_lt(name, plans[i].meta.name.as_str()) {
            proof {
                lemma_insert_pos_scan(plans@, plan_key(), name@, i as int);
            }
            return i;
        }
        i = i + 1;
    }
    proof {
        lemma_insert_pos_scan(plans@, plan_key(), name@, i as int);
    }
    i
}

fn task_insert_pos(tasks: &Vec<Task>, id: &str) -> (k: usize)
    ensures
        k == insert_pos(tasks@, task_key(), id@),
{
    let mut i: usize = 0;
    while i < tasks.len()
        invariant
            i <= tasks@.len(),
            forall|j: int| 0 <= j < i ==> !seq_lt(id@, task_key()(#[trigger] tasks@[j])),
        decreases tasks.len() - i,
    {
        if str_lt(id, tasks[i].id.0.as_str()) {
            proof {
                lemma_insert_pos_scan(tasks@, task_key(), id@, i as int);
            }
            return i;
        }
        i = i + 1;
    }
    proof {
        lemma_insert_pos_scan(tasks@, task_key(), id@, i as int);
    }
    i
}

impl TaskStore {
    /// Where the plan `name` of ref `r` sits: the ref's position and the
    /// plan's position under it.
    fn locate(&self, r: &str, name: &str) -> (res: Option<(usize, usize)>)
        ensures
            match res {
                Some((ri, pi)) => {
                    &&& ri == index_of(self.refs@, ref_key(), r@)
                    &&& ri < self.refs@.len()
                    &&& self.plans_of(r@) == self.refs@[ri as int].plans@
                    &&& pi == plan_index(self.plans_of(r@), name@)
                    &&& pi < self.plans_of(r@).len()
                },
                None => plan_index(self.plans_of(r@), name@) < 0,
            },
    {
        match find_ref(&self.refs, r) {
            None => None,
            Some(ri) => {
                proof {
                    lemma_index_of_range(self.refs@, ref_key(), r@);
                }
                match find_plan(&self.refs[ri].plans, name) {
                    None => None,
                    Some(pi) => {
                        proof {
                            lemma_index_of_range(self.plans_of(r@), plan_key(), name@);
                        }
                        Some((ri, pi))
                    },
                }
            },
        }
    }
}

impl TaskStore {
    /// Create a store bound to a path prefix, acting as `agent_id`. One
    /// trailing `/` is dropped from the prefix.
    pub fn new(prefix: &str, agent_id: &str) -> (s: TaskStore)
        ensures
            s.wf(),
            s.spec_prefix()@ == (if seq_ends_with_char(prefix@, '/') {
                prefix@.drop_last()
            } else {
                prefix@
            }),
            s.spec_agent_id()@ == agent_id@,
            forall|r: Seq<char>| #[trigger] s.plans_of(r).len() == 0,
            s.spec_history().len() == 0,
    {
        let p = if str_ends_with_char(prefix, '/') {
            owned(prefix.substring_char(0, prefix.unicode_len() - 1))
        } else {
            owned(prefix)
        };
        TaskStore { prefix: p, agent_id: owned(agent_id), refs: Vec::new(), log: Vec::new() }
    }
}

/// Some task of `ts` is neither done nor abandoned.
pub open spec fn has_open_task(ts: Seq<Task>) -> bool {
    exists|k: int| 0 <= k < ts.len() && !(#[trigger] ts[k].status).spec_is_terminal()
}

/// Outcome of `archive_plan` at time `now`.
pub open spec fn archive_plan_post(
    old: TaskStore,
    new: TaskStore,
    r: Seq<char>,
    name: Seq<char>,
    now: Timestamp,
    res: Result<Plan, TaskStoreError>,
) -> bool {
    let ps = old.plans_of(r);
    let i = plan_index(ps, name);
    if i < 0 {
        &&& res matches Err(TaskStoreError::PlanNotFound(n)) && n@ == name
        &&& new == old
    } else {
        &&& res matches Ok(p) && p == (Plan {
            status: PlanStatus::Archived,
            archived_at: Some(now),
            ..ps[i].meta
        }) && new.plans_of(r) == ps.update(i, PlanEntry { meta: p, tasks: ps[i].tasks })
        &&& unchanged_except(old, new, r)
    }
}

/// Outcome of `close_plan` at time `now`.
pub open spec fn close_plan_post(
    old: TaskStore,
    new: TaskStore,
    r: Seq<char>,
    name: Seq<char>,
    summary: Seq<char>,
    now: Timestamp,
    res: Result<Plan, TaskStoreError>,
) -> bool {
    let ps = old.plans_of(r);
    let i = plan_index(ps, name);
    if seq_blank(summary) {
        &&& res matches Err(TaskStoreError::SummaryRequired)
        &&& new == old
    } else if i < 0 {
        &&& res matches Err(TaskStoreError::PlanNotFound(n)) && n@ == name
        &&& new == old
    } else if ps[i].meta.status == PlanStatus::Completed {
        &&& res == Ok::<Plan, TaskStoreError>(ps[i].meta)
        &&& new == old
    } else if has_open_task(ps[i].tasks@) {
        &&& res matches Err(TaskStoreError::CannotClose { plan, reason }) && plan@ == name
            && reason@ == OPEN_TASKS_REASON@
        &&& new == old
    } else {
        &&& res matches Ok(p) && p == (Plan {
            status: PlanStatus::Completed,
            summary: p.summary,
            closed_at: Some(now),
            closed_by: Some(old.spec_agent_id()),
            ..ps[i].meta
        }) && (p.summary matches Some(s) && s@ == summary) && new.plans_of(r) == ps.update(
            i,
            PlanEntry { meta: p, tasks: ps[i].tasks },
        )
        &&& unchanged_except(old, new, r)
    }
}

/// Why `close_plan` refuses a plan with open tasks.
pub const OPEN_TASKS_REASON: &'static str = "every task must be done or abandoned first";

/// Replacing a plan by one with the same name and ordered tasks keeps
/// the order.
proof fn lemma_update_plan(ps: Seq<PlanEntry>, i: int, e: PlanEntry)
    requires
        ordered_plans(ps),
        0 <= i < ps.len(),
        e.meta.name@ == ps[i].meta.name@,
        sorted_by(e.tasks@, task_key()),
    ensures
        ordered_plans(ps.update(i, e)),
{
    lemma_sorted_update(ps, plan_key(), i, e);
    let t = ps.update(i, e);
    assert forall|j: int| 0 <= j < t.len() implies sorted_by(#[trigger] t[j].tasks@, task_key()) by {
        if j != i {
            assert(t[j] == ps[j]);
        }
    }
}

/// Removing a plan keeps the order.
proof fn lemma_remove_plan(ps: Seq<PlanEntry>, i: int)
    requires
        ordered_plans(ps),
        0 <= i < ps.len(),
    ensures
        ordered_plans(ps.remove(i)),
{
    lemma_sorted_remove(ps, plan_key(), i);
    let t = ps.remove(i);
    assert forall|j: int| 0 <= j < t.len() implies sorted_by(#[trigger] t[j].tasks@, task_key()) by {
        if j < i {
            assert(t[j] == ps[j]);
        } else {
            assert(t[j] == ps[j + 1]);
        }
    }
}

fn any_open(tasks: &Vec<Task>) -> (b: bool)
    ensures
        b == has_open_task(tasks@),
{
    let mut i: usize = 0;
    while i < tasks.len()
        invariant
            i <= tasks@.len(),
            forall|k: int| 0 <= k < i ==> (#[trigger] tasks@[k].status).spec_is_terminal(),
        decreases tasks.len() - i,
    {
        if !tasks[i].status.is_terminal() {
            return true;
        }
        i = i + 1;
    }
    false
}

// ---------------------------------------------------------------------------
// Blocker ids and task numbers
// ---------------------------------------------------------------------------

/// The canonical blocker-id shape: `t-` and one to nine digits, the
/// whole id.
pub const BLOCKER_ID_PATTERN: &'static str = r"^t-\d{1,9}$";

/// What `regex::Regex::new(pattern)` and `Regex::is_match` on `hay`
/// give: `None` when the pattern does not compile, else whether `hay`
/// matches it.
pub uninterp spec fn regex_match(pattern: Seq<char>, hay: Seq<char>) -> Option<bool>;

/// `regex::Regex::new(pattern)`, then `Regex::is_match(hay)`.
///
/// Trusted: the outcome is named `regex_match(pattern@, hay@)`. Of the
/// blocker-id pattern the contract states what it plainly gives: it
/// compiles; a match starts with `t-` and is three to eleven characters
/// long (each `\d` matches one character, any Unicode decimal digit);
/// and `t-` followed by one to nine ASCII digits always matches.
#[verifier::external_body]
fn regex_is_match(pattern: &str, hay: &str) -> (r: Option<bool>)
    ensures
        r == regex_match(pattern@, hay@),
        pattern@ == BLOCKER_ID_PATTERN@ ==> r is Some,
        pattern@ == BLOCKER_ID_PATTERN@ && r == Some(true) ==> 3 <= hay@.len() <= 11 && hay@[0]
            == 't' && hay@[1] == '-',
        pattern@ == BLOCKER_ID_PATTERN@ && 3 <= hay@.len() <= 11 && hay@[0] == 't' && hay@[1]
            == '-' && all_digits(hay@.skip(2)) ==> r == Some(true),
{
    match regex::Regex::new(pattern) {
        Ok(re) => Some(re.is_match(hay)),
        Err(_) => None,
    }
}

/// Whether `s` has the canonical blocker-id shape, as the `regex` crate
/// matches `BLOCKER_ID_PATTERN`.
pub open spec fn blocker_id_matches(s: Seq<char>) -> bool {
    regex_match(BLOCKER_ID_PATTERN@, s) == Some(true)
}

/// A blocker id without the canonical shape.
pub open spec fn bad_blocker_id() -> spec_fn(TaskId) -> bool {
    |b: TaskId| !blocker_id_matches(b.0@)
}

/// A blocker id naming no task of `ts`.
pub open spec fn missing_from(ts: Seq<Task>) -> spec_fn(TaskId) -> bool {
    |b: TaskId| task_index(ts, b.0@) < 0
}

/// Reject blocker ids that do not have the canonical `t-NNN` shape,
/// naming the first one, before any of them is looked up.
pub fn validate_blocker_ids(blockers: &[TaskId]) -> (res: Result<(), TaskStoreError>)
    ensures
        ({
            let k = first_index(blockers@, bad_blocker_id());
            match res {
                Ok(()) => k < 0,
                Err(e) => k >= 0 && (e matches TaskStoreError::InvalidBlockerId(s) && s@
                    == blockers@[k].0@),
            }
        }),
{
    let mut i: usize = 0;
    while i < blockers.len()
        invariant
            i <= blockers@.len(),
            forall|j: int| 0 <= j < i ==> !bad_blocker_id()(#[trigger] blockers@[j]),
        decreases blockers.len() - i,
    {
        let shape_ok = match regex_is_match(BLOCKER_ID_PATTERN, blockers[i].as_str()) {
            Some(b) => b,
            None => false,
        };
        if !shape_ok {
            proof {
                lemma_first_index_scan(blockers@, bad_blocker_id(), i as int);
            }
            return Err(TaskStoreError::InvalidBlockerId(blockers[i].0.clone()));
        }
        i = i + 1;
    }
    proof {
        lemma_first_index_scan(blockers@, bad_blocker_id(), i as int);
    }
    Ok(())
}

fn first_missing(tasks: &Vec<Task>, bs: &[TaskId]) -> (res: Option<usize>)
    ensures
        match res {
            Some(k) => k == first_index(bs@, missing_from(tasks@)),
            None => first_index(bs@, missing_from(tasks@)) < 0,
        },
{
    let mut i: usize = 0;
    while i < bs.len()
        invariant
            i <= bs@.len(),
            forall|j: int| 0 <= j < i ==> !missing_from(tasks@)(#[trigger] bs@[j]),
        decreases bs.len() - i,
    {
        if find_task(tasks, bs[i].as_str()).is_none() {
            proof {
                lemma_first_index_scan(bs@, missing_from(tasks@), i as int);
            }
            return Some(i);
        }
        i = i + 1;
    }
    proof {
        lemma_first_index_scan(bs@, missing_from(tasks@), i as int);
    }
    None
}

/// The number in a task's id, or 0 when the id does not parse.
pub open spec fn id_number(t: Task) -> nat {
    match task_id_number(t.id.0@) {
        Some(n) => n as nat,
        None => 0,
    }
}

/// The largest number among the task ids of `ts` (0 when there is none).
pub open spec fn max_task_number(ts: Seq<Task>) -> nat
    decreases ts.len(),
{
    if ts.len() == 0 {
        0
    } else {
        let m = max_task_number(ts.drop_last());
        let n = id_number(ts.last());
        if n > m {
            n
        } else {
            m
        }
    }
}

/// The plan `name` can take another task: the next id number fits in
/// a `u32`.
pub open spec fn room_for_task(ps: Seq<PlanEntry>, name: Seq<char>) -> bool {
    max_task_number(tasks_in(ps, name)) < u32::MAX
}

/// Every check `add_task` makes passes: the plan exists, a parent names
/// a task of it that is not itself a subtask, and the blockers have the
/// canonical id shape and name tasks of the plan. Only then is a new id
/// number taken.
pub open spec fn add_task_accepted(
    ps: Seq<PlanEntry>,
    plan: Seq<char>,
    parent_id: Option<TaskId>,
    blocked_by: Seq<TaskId>,
) -> bool {
    let ts = tasks_in(ps, plan);
    &&& plan_index(ps, plan) >= 0
    &&& parent_id matches Some(pid) ==> task_index(ts, pid.0@) >= 0 && ts[task_index(
        ts,
        pid.0@,
    )].parent_id is None
    &&& first_index(blocked_by, bad_blocker_id()) < 0
    &&& first_index(blocked_by, missing_from(ts)) < 0
}

/// Every task's id number is at most the largest in the list.
pub proof fn lemma_max_task_number(ts: Seq<Task>, k: int)
    requires
        0 <= k < ts.len(),
    ensures
        id_number(ts[k]) <= max_task_number(ts),
    decreases ts.len(),
{
    if k < ts.len() - 1 {
        lemma_max_task_number(ts.drop_last(), k);
        assert(ts.drop_last()[k] == ts[k]);
    }
}

proof fn lemma_max_task_number_bound(ts: Seq<Task>)
    ensures
        max_task_number(ts) <= u32::MAX,
    decreases ts.len(),
{
    if ts.len() > 0 {
        lemma_max_task_number_bound(ts.drop_last());
    }
}

fn max_number(tasks: &Vec<Task>) -> (m: u32)
    ensures
        m == max_task_number(tasks@),
{
    let mut m: u32 = 0;
    let mut i: usize = 0;
    proof {
        assert(tasks@.take(0) =~= Seq::<Task>::empty());
    }
    while i < tasks.len()
        invariant
            i <= tasks@.len(),
            m == max_task_number(tasks@.take(i as int)),
        decreases tasks.len() - i,
    {
        proof {
            assert(tasks@.take(i + 1).drop_last() =~= tasks@.take(i as int));
            assert(tasks@.take(i + 1).last() == tasks@[i as int]);
        }
        match tasks[i].id.number() {
            Ok(v) => {
                if v > m {
                    m = v;
                }
            },
            Err(_) => {},
        }
        i = i + 1;
    }
    proof {
        assert(tasks@.take(tasks@.len() as int) =~= tasks@);
    }
    m
}

/// A fresh id, one past the largest number in use, names no task of `ts`.
proof fn lemma_next_id_fresh(ts: Seq<Task>)
    requires
        max_task_number(ts) < u32::MAX,
    ensures
        task_index(ts, task_id_text(max_task_number(ts) + 1)) < 0,
{
    let n = max_task_number(ts) + 1;
    lemma_index_of_range(ts, task_key(), task_id_text(n));
    let k = task_index(ts, task_id_text(n));
    if k >= 0 {
        task_id_number_roundtrip(n as u32);
        lemma_max_task_number(ts, k);
        assert(id_number(ts[k]) == n);
    }
}

// ---------------------------------------------------------------------------
// Task operations
// ---------------------------------------------------------------------------

/// `ps2` is `ps` with the tasks of its plan `i` replaced by `ts`.
pub open spec fn with_tasks(ps: Seq<PlanEntry>, ps2: Seq<PlanEntry>, i: int, ts: Seq<Task>) -> bool {
    &&& ps2.len() == ps.len()
    &&& forall|j: int| 0 <= j < ps.len() && j != i ==> #[trigger] ps2[j] == ps[j]
    &&& ps2[i].meta == ps[i].meta
    &&& ps2[i].tasks@ == ts
}

/// The task record `add_task` makes.
pub open spec fn fresh_task(
    t: Task,
    n: nat,
    title: Seq<char>,
    priority: Priority,
    parent_id: Option<TaskId>,
    blocked_by: Seq<TaskId>,
    assigned_to: Option<String>,
    options: AddTaskOptions,
    agent: String,
    now: Timestamp,
) -> bool {
    &&& t.id.0@ == task_id_text(n)
    &&& t.title@ == title
    &&& t.status == TaskStatus::Pending
    &&& t.priority == priority
    &&& t.parent_id == parent_id
    &&& t.blocked_by@ == blocked_by
    &&& t.created_at == now
    &&& t.created_by == agent
    &&& t.started_at is None
    &&& t.started_by is None
    &&& t.completed_at is None
    &&& t.completed_by is None
    &&& t.proof is None
    &&& t.abandoned_at is None
    &&& t.abandoned_reason is None
    &&& t.assigned_to == assigned_to
    &&& t.payload == options.payload
    &&& t.parent_change == options.parent_change
    &&& t.on_complete == options.on_complete
}

/// Outcome of `add_task_with_extensions` at time `now`.
pub open spec fn add_task_post(
    old: TaskStore,
    new: TaskStore,
    r: Seq<char>,
    plan: Seq<char>,
    title: Seq<char>,
    priority: Priority,
    parent_id: Option<TaskId>,
    blocked_by: Seq<TaskId>,
    assigned_to: Option<String>,
    options: AddTaskOptions,
    now: Timestamp,
    res: Result<Task, TaskStoreError>,
) -> bool {
    let ps = old.plans_of(r);
    let i = plan_index(ps, plan);
    let ts = tasks_in(ps, plan);
    let bad = first_index(blocked_by, bad_blocker_id());
    let missing = first_index(blocked_by, missing_from(ts));
    let n = max_task_number(ts) + 1;
    let k = insert_pos(ts, task_key(), task_id_text(n));
    let pid = parent_id->0;
    if i < 0 {
        &&& res matches Err(TaskStoreError::PlanNotFound(p)) && p@ == plan
        &&& new == old
    } else if parent_id is Some && task_index(ts, pid.0@) < 0 {
        &&& res matches Err(TaskStoreError::TaskNotFound { plan: p, id }) && p@ == plan && id == pid
        &&& new == old
    } else if parent_id is Some && ts[task_index(ts, pid.0@)].parent_id is Some {
        &&& res matches Err(TaskStoreError::ParentIsSubtask(id)) && id == pid
        &&& new == old
    } else if bad >= 0 {
        &&& res matches Err(TaskStoreError::InvalidBlockerId(s)) && s@ == blocked_by[bad].0@
        &&& new == old
    } else if missing >= 0 {
        &&& res matches Err(TaskStoreError::TaskNotFound { plan: p, id }) && p@ == plan && id
            == blocked_by[missing]
        &&& new == old
    } else {
        let ts2 = new.plans_of(r)[i].tasks@;
        &&& with_tasks(ps, new.plans_of(r), i, ts2)
        &&& ts2.len() == ts.len() + 1
        &&& ts2.remove(k) == ts
        &&& fresh_task(
            ts2[k],
            n,
            title,
            priority,
            parent_id,
            blocked_by,
            assigned_to,
            options,
            old.spec_agent_id(),
            now,
        )
        &&& res matches Ok(t) && task_matches(t, ts2[k])
        &&& unchanged_except(old, new, r)
    }
}

/// Options with no extension field set.
pub open spec fn no_options() -> AddTaskOptions {
    AddTaskOptions { payload: None, parent_change: None, on_complete: None }
}

/// `new` is `old` with the task `id` of plan `plan` under ref `r`
/// replaced by `t2`.
pub open spec fn task_replaced(
    old: TaskStore,
    new: TaskStore,
    r: Seq<char>,
    plan: Seq<char>,
    id: Seq<char>,
    t2: Task,
) -> bool {
    let ps = old.plans_of(r);
    let i = plan_index(ps, plan);
    let ts = ps[i].tasks@;
    &&& with_tasks(ps, new.plans_of(r), i, ts.update(task_index(ts, id), t2))
    &&& unchanged_except(old, new, r)
}

/// The refusal for a task id that names no task of the plan.
pub open spec fn task_not_found(res: Result<Task, TaskStoreError>, plan: Seq<char>, id: TaskId) -> bool {
    res matches Err(TaskStoreError::TaskNotFound { plan: p, id: x }) && p@ == plan && x == id
}

/// A blocker that names a task of `ts` which is not done yet.
pub open spec fn pending_in(ts: Seq<Task>) -> spec_fn(TaskId) -> bool {
    |b: TaskId| task_index(ts, b.0@) >= 0 && ts[task_index(ts, b.0@)].status != TaskStatus::Done
}

/// Outcome of `start_task` at time `now`.
pub open spec fn start_task_post(
    old: TaskStore,
    new: TaskStore,
    r: Seq<char>,
    plan: Seq<char>,
    id: TaskId,
    now: Timestamp,
    res: Result<Task, TaskStoreError>,
) -> bool {
    let ts = tasks_in(old.plans_of(r), plan);
    let j = task_index(ts, id.0@);
    let t = ts[j];
    let missing = t.blocked_by@.filter(missing_from(ts));
    let pending = t.blocked_by@.filter(pending_in(ts));
    if j < 0 {
        task_not_found(res, plan, id) && new == old
    } else if t.status != TaskStatus::Pending {
        &&& res matches Err(TaskStoreError::InvalidTransition { from, to }) && from == t.status
            && to == TaskStatus::InProgress
        &&& new == old
    } else if missing.len() > 0 {
        &&& res matches Err(TaskStoreError::BlockerNotFound { blockers }) && blockers@ == missing
        &&& new == old
    } else if pending.len() > 0 {
        &&& res matches Err(TaskStoreError::Blocked { blockers }) && blockers@ == pending
        &&& new == old
    } else {
        let t2 = Task {
            status: TaskStatus::InProgress,
            started_at: Some(now),
            started_by: Some(old.spec_agent_id()),
            ..t
        };
        &&& task_replaced(old, new, r, plan, id.0@, t2)
        &&& res matches Ok(x) && task_matches(x, t2)
    }
}

/// Outcome of `complete_task` at time `now`.
pub open spec fn complete_task_post(
    old: TaskStore,
    new: TaskStore,
    r: Seq<char>,
    plan: Seq<char>,
    id: TaskId,
    proof: Proof,
    now: Timestamp,
    res: Result<Task, TaskStoreError>,
) -> bool {
    let ts = tasks_in(old.plans_of(r), plan);
    let j = task_index(ts, id.0@);
    let t = ts[j];
    if j < 0 {
        task_not_found(res, plan, id) && new == old
    } else if t.status != TaskStatus::InProgress {
        &&& res matches Err(TaskStoreError::InvalidTransition { from, to }) && from == t.status
            && to == TaskStatus::Done
        &&& new == old
    } else {
        let t2 = Task {
            status: TaskStatus::Done,
            proof: Some(proof),
            completed_at: Some(now),
            completed_by: Some(old.spec_agent_id()),
            ..t
        };
        &&& task_replaced(old, new, r, plan, id.0@, t2)
        &&& res matches Ok(x) && task_matches(x, t2)
    }
}

/// Outcome of `abandon_task` at time `now`.
pub open spec fn abandon_task_post(
    old: TaskStore,
    new: TaskStore,
    r: Seq<char>,
    plan: Seq<char>,
    id: TaskId,
    reason: Seq<char>,
    now: Timestamp,
    res: Result<Task, TaskStoreError>,
) -> bool {
    let ts = tasks_in(old.plans_of(r), plan);
    let j = task_index(ts, id.0@);
    let t = ts[j];
    if seq_blank(reason) {
        res matches Err(TaskStoreError::ReasonRequired) && new == old
    } else if j < 0 {
        task_not_found(res, plan, id) && new == old
    } else if t.status != TaskStatus::Pending && t.status != TaskStatus::InProgress {
        &&& res matches Err(TaskStoreError::InvalidTransition { from, to }) && from == t.status
            && to == TaskStatus::Abandoned
        &&& new == old
    } else {
        let t2 = new.plans_of(r)[plan_index(old.plans_of(r), plan)].tasks@[j];
        &&& t2 == (Task {
            status: TaskStatus::Abandoned,
            abandoned_at: Some(now),
            abandoned_reason: t2.abandoned_reason,
            ..t
        })
        &&& t2.abandoned_reason matches Some(s) && s@ == reason
        &&& task_replaced(old, new, r, plan, id.0@, t2)
        &&& res matches Ok(x) && task_matches(x, t2)
    }
}

/// Changing one task in place, keeping its id, changes `plans_of(r)`
/// only in that task, and keeps the order.
proof fn lemma_task_updated(old: TaskStore, new: TaskStore, r: Seq<char>, ri: int, pi: int, ti: int)
    requires
        old.wf(),
        0 <= ri < old.refs@.len(),
        index_of(old.refs@, ref_key(), r) == ri,
        0 <= pi < old.refs@[ri].plans@.len(),
        0 <= ti < old.refs@[ri].plans@[pi].tasks@.len(),
        new.prefix == old.prefix,
        new.agent_id == old.agent_id,
        new.refs@.len() == old.refs@.len(),
        forall|j: int| 0 <= j < old.refs@.len() && j != ri ==> new.refs@[j] == old.refs@[j],
        new.refs@[ri].name == old.refs@[ri].name,
        new.refs@[ri].plans@.len() == old.refs@[ri].plans@.len(),
        forall|k: int|
            0 <= k < old.refs@[ri].plans@.len() && k != pi ==> new.refs@[ri].plans@[k]
                == old.refs@[ri].plans@[k],
        new.refs@[ri].plans@[pi].meta == old.refs@[ri].plans@[pi].meta,
        new.refs@[ri].plans@[pi].tasks@ == old.refs@[ri].plans@[pi].tasks@.update(
            ti,
            new.refs@[ri].plans@[pi].tasks@[ti],
        ),
        new.refs@[ri].plans@[pi].tasks@[ti].id == old.refs@[ri].plans@[pi].tasks@[ti].id,
    ensures
        new.wf(),
        unchanged_except(old, new, r),
        with_tasks(old.plans_of(r), new.plans_of(r), pi, new.refs@[ri].plans@[pi].tasks@),
{
    let ps = old.refs@[ri].plans@;
    let ts = ps[pi].tasks@;
    let ps2 = new.refs@[ri].plans@;
    assert(ordered_plans(ps));
    lemma_sorted_update(ts, task_key(), ti, ps2[pi].tasks@[ti]);
    lemma_update_plan(ps, pi, ps2[pi]);
    assert(ps2 =~= ps.update(pi, ps2[pi]));
    lemma_ref_updated(old, new, r, ri);
}

/// `new` is `old` with the task `id` replaced by `t2`, and `res`
/// hands back a copy of `t2`.
pub open spec fn task_edited(
    old: TaskStore,
    new: TaskStore,
    r: Seq<char>,
    plan: Seq<char>,
    id: Seq<char>,
    t2: Task,
    res: Result<Task, TaskStoreError>,
) -> bool {
    &&& task_replaced(old, new, r, plan, id, t2)
    &&& res matches Ok(x) && task_matches(x, t2)
}

/// A blocker that names a task of `ts` which is done.
pub open spec fn satisfied_in(ts: Seq<Task>) -> spec_fn(TaskId) -> bool {
    |b: TaskId| task_index(ts, b.0@) >= 0 && ts[task_index(ts, b.0@)].status == TaskStatus::Done
}

/// The assignment filter of `next_task_for`.
pub open spec fn assignment_ok(t: Task, assigned_to: Option<&str>, include_unassigned: bool) -> bool {
    match assigned_to {
        None => true,
        Some(agent) => match t.assigned_to {
            Some(a) => a@ == agent@,
            None => include_unassigned,
        },
    }
}

/// Task `k` of `ts` is pending, every blocker of it is done, and it
/// passes the assignment filter.
pub open spec fn is_candidate(
    ts: Seq<Task>,
    k: int,
    assigned_to: Option<&str>,
    include_unassigned: bool,
) -> bool {
    &&& 0 <= k < ts.len()
    &&& ts[k].status == TaskStatus::Pending
    &&& forall|b: int|
        0 <= b < ts[k].blocked_by@.len() ==> satisfied_in(ts)(#[trigger] ts[k].blocked_by@[b])
    &&& assignment_ok(ts[k], assigned_to, include_unassigned)
}

/// Task `k` of `ts` goes before task `j` in `next_task_for`'s choice:
/// higher priority, or the same priority and a smaller id number (the
/// order tasks were added in); equal numbers keep their list order.
pub open spec fn goes_before(ts: Seq<Task>, k: int, j: int) -> bool {
    ||| ts[j].priority.rank() < ts[k].priority.rank()
    ||| ts[j].priority.rank() == ts[k].priority.rank() && (id_number(ts[k]) < id_number(ts[j]) || (
        id_number(ts[k]) == id_number(ts[j]) && k <= j))
}

/// Task `k` is the candidate `next_task_for` picks: highest priority,
/// and among those the one added first (smallest id number).
pub open spec fn is_next(ts: Seq<Task>, k: int, assigned_to: Option<&str>, include_unassigned: bool) -> bool {
    &&& is_candidate(ts, k, assigned_to, include_unassigned)
    &&& forall|j: int|
        #![trigger is_candidate(ts, j, assigned_to, include_unassigned)]
        is_candidate(ts, j, assigned_to, include_unassigned) ==> goes_before(ts, k, j)
}

/// The number in a task's id, or 0 when the id does not parse.
fn id_number_of(t: &Task) -> (n: u32)
    ensures
        n == id_number(*t),
{
    match t.id.number() {
        Ok(v) => v,
        Err(_) => 0,
    }
}

/// A plan's status matches the filter of `list_plans_by_status`.
pub open spec fn has_status(status: Option<PlanStatus>) -> spec_fn(Plan) -> bool {
    |p: Plan|
        match status {
            None => true,
            Some(s) => p.status == s,
        }
}

/// The plan records of `ps`, in order.
pub open spec fn plan_metas(ps: Seq<PlanEntry>) -> Seq<Plan> {
    ps.map_values(|e: PlanEntry| e.meta)
}

/// Task `k` of `ts` is a direct subtask of the task with id `parent`.
pub open spec fn is_child(ts: Seq<Task>, k: int, parent: Seq<char>) -> bool {
    0 <= k < ts.len() && (ts[k].parent_id matches Some(q) && q.0@ == parent)
}

/// The rollup status of a parent from its direct subtasks: its own
/// status without subtasks; `InProgress` if any subtask is; `Done` if
/// some subtask is not abandoned and every such subtask is done;
/// `Pending` otherwise.
pub open spec fn rollup_status(ts: Seq<Task>, parent: Seq<char>, own: TaskStatus) -> TaskStatus {
    if forall|k: int| !is_child(ts, k, parent) {
        own
    } else if exists|k: int| is_child(ts, k, parent) && ts[k].status == TaskStatus::InProgress {
        TaskStatus::InProgress
    } else if (exists|k: int| is_child(ts, k, parent) && ts[k].status != TaskStatus::Abandoned)
        && (forall|k: int|
        is_child(ts, k, parent) && ts[k].status != TaskStatus::Abandoned ==> ts[k].status
            == TaskStatus::Done) {
        TaskStatus::Done
    } else {
        TaskStatus::Pending
    }
}

/// The ids of the done tasks of `ts`, in order.
pub open spec fn done_ids(ts: Seq<Task>) -> Seq<TaskId>
    decreases ts.len(),
{
    if ts.len() == 0 {
        Seq::empty()
    } else {
        let d = done_ids(ts.drop_last());
        if ts.last().status == TaskStatus::Done {
            d.push(ts.last().id)
        } else {
            d
        }
    }
}

/// The proofs of the done tasks of `ts`, in order.
pub open spec fn done_proofs(ts: Seq<Task>) -> Seq<Proof>
    decreases ts.len(),
{
    if ts.len() == 0 {
        Seq::empty()
    } else {
        let d = done_proofs(ts.drop_last());
        if ts.last().status == TaskStatus::Done {
            d.push(ts.last().proof->0)
        } else {
            d
        }
    }
}

/// Inserting a fresh, empty plan at its sorted position keeps the
/// order.
proof fn lemma_insert_plan(ps: Seq<PlanEntry>, e: PlanEntry)
    requires
        ordered_plans(ps),
        plan_index(ps, e.meta.name@) < 0,
        e.tasks@.len() == 0,
    ensures
        0 <= insert_pos(ps, plan_key(), e.meta.name@) <= ps.len(),
        ordered_plans(ps.insert(insert_pos(ps, plan_key(), e.meta.name@), e)),
{
    let k = insert_pos(ps, plan_key(), e.meta.name@);
    lemma_sorted_insert(ps, plan_key(), e);
    let t = ps.insert(k, e);
    assert forall|j: int| 0 <= j < t.len() implies sorted_by(#[trigger] t[j].tasks@, task_key()) by {
        if j < k {
            assert(t[j] == ps[j]);
        } else if j > k {
            assert(t[j] == ps[j - 1]);
        }
    }
}

impl TaskStore {
    /// The path prefix, without a trailing `/`.
    pub fn prefix(&self) -> (r: &str)
        ensures
            r@ == self.spec_prefix()@,
    {
        self.prefix.as_str()
    }

    /// The agent recorded as author of every change.
    pub fn agent_id(&self) -> (r: &str)
        ensures
            r@ == self.spec_agent_id()@,
    {
        self.agent_id.as_str()
    }

    /// Every change the store has written, oldest first.
    pub fn history(&self) -> (r: &Vec<PlanCommit>)
        ensures
            r@ == self.spec_history(),
    {
        &self.log
    }

    /// Records a plan change to ref `r` by the store's agent.
    fn record(&mut self, r: &str, description: String)
        ensures
            final(self).refs == old(self).refs,
            final(self).prefix == old(self).prefix,
            final(self).agent_id == old(self).agent_id,
            old(self).wf() ==> final(self).wf(),
            forall|r2: Seq<char>| #[trigger] final(self).plans_of(r2) == old(self).plans_of(r2),
            logged(*old(self), *final(self), r@, description@, true),
    {
        let c = PlanCommit {
            ref_name: owned(r),
            agent_id: self.agent_id.clone(),
            category: IntentCategory::Plan,
            description,
        };
        self.log.push(c);
    }

    // -----------------------------------------------------------------------
    // Plan operations
    // -----------------------------------------------------------------------

    /// Create a new plan, stamped with the time `now`. Fails if a plan
    /// with the same name already exists under the ref.
    pub fn create_plan_at(
        &mut self,
        ref_name: &str,
        name: &str,
        description: Option<String>,
        now: Timestamp,
    ) -> (res: Result<Plan, TaskStoreError>)
        requires
            old(self).wf(),
        ensures
            final(self).wf(),
            logged(*old(self), *final(self), ref_name@, "Create plan "@ + name@, res is Ok),
            create_plan_post(*old(self), *final(self), ref_name@, name@, description, now, res),
    {
        if self.locate(ref_name, name).is_some() {
            return Err(TaskStoreError::PlanAlreadyExists(owned(name)));
        }
        let plan = Plan {
            name: owned(name),
            description,
            status: PlanStatus::Active,
            created_at: now,
            created_by: self.agent_id.clone(),
            archived_at: None,
            summary: None,
            closed_at: None,
            closed_by: None,
        };
        let entry = PlanEntry { meta: plan.copy(), tasks: Vec::new() };
        let ghost e = entry;
        let ghost ps = old(self).plans_of(ref_name@);
        match find_ref(&self.refs, ref_name) {
            Some(ri) => {
                proof {
                    lemma_index_of_range(self.refs@, ref_key(), ref_name@);
                    lemma_insert_plan(ps, e);
                }
                let k = plan_insert_pos(&self.refs[ri].plans, name);
                self.refs[ri].plans.insert(k, entry);
                proof {
                    lemma_ref_updated(*old(self), *self, ref_name@, ri as int);
                    assert(self.plans_of(ref_name@) == ps.insert(k as int, e));
                    assert(ps.insert(k as int, e).remove(k as int) =~= ps);
                }
            },
            None => {
                let mut plans: Vec<PlanEntry> = Vec::new();
                plans.push(entry);
                let rs = RefSpace { name: owned(ref_name), plans };
                let ghost g = rs;
                self.refs.push(rs);
                proof {
                    lemma_ref_pushed(*old(self), *self, ref_name@, g);
                    assert(ps == Seq::<PlanEntry>::empty());
                    lemma_insert_plan(ps, e);
                    assert(g.plans@ =~= ps.insert(0, e));
                    assert(ps.insert(0, e).remove(0) =~= ps);
                }
            },
        }
        self.record(ref_name, describe_plan("Create plan ", name));
        Ok(plan)
    }

    /// Create a new plan, stamped with the current time. Fails if a plan
    /// with the same name already exists under the ref.
    pub fn create_plan(&mut self, ref_name: &str, name: &str, description: Option<String>) -> (res:
        Result<Plan, TaskStoreError>)
        requires
            old(self).wf(),
        ensures
            final(self).wf(),
            logged(*old(self), *final(self), ref_name@, "Create plan "@ + name@, res is Ok),
            exists|now: Timestamp|
                0 <= now <= MAX_TIMESTAMP && #[trigger] create_plan_post(
                    *old(self),
                    *final(self),
                    ref_name@,
                    name@,
                    description,
                    now,
                    res,
                ),
    {
        let now = now_millis();
        self.create_plan_at(ref_name, name, description, now)
    }

    /// Fetch a single plan by name.
    pub fn get_plan(&self, ref_name: &str, name: &str) -> (res: Result<Plan, TaskStoreError>)
        ensures
            ({
                let ps = self.plans_of(ref_name@);
                let i = plan_index(ps, name@);
                match res {
                    Ok(p) => i >= 0 && p == ps[i].meta,
                    Err(e) => i < 0 && (e matches TaskStoreError::PlanNotFound(n) && n@ == name@),
                }
            }),
    {
        match self.locate(ref_name, name) {
            Some((ri, pi)) => Ok(self.refs[ri].plans[pi].meta.copy()),
            None => Err(TaskStoreError::PlanNotFound(owned(name))),
        }
    }

    /// Every plan under the ref, in order of name.
    pub fn list_plans(&self, ref_name: &str) -> (res: Result<Vec<Plan>, TaskStoreError>)
        requires
            self.wf(),
        ensures
            ({
                let ps = self.plans_of(ref_name@);
                &&& res matches Ok(v) && v@.len() == ps.len() && (forall|i: int|
                    0 <= i < ps.len() ==> #[trigger] v@[i] == ps[i].meta)
                &&& res matches Ok(v) && forall|i: int, j: int|
                    0 <= i < j < v@.len() ==> seq_lt(#[trigger] v@[i].name@, #[trigger] v@[j].name@)
            }),
    {
        let ghost ps = self.plans_of(ref_name@);
        proof {
            self.lemma_wf_plans(ref_name@);
        }
        let mut out: Vec<Plan> = Vec::new();
        match find_ref(&self.refs, ref_name) {
            None => {},
            Some(ri) => {
                proof {
                    lemma_index_of_range(self.refs@, ref_key(), ref_name@);
                }
                let plans = &self.refs[ri].plans;
                let mut i: usize = 0;
                while i < plans.len()
                    invariant
                        plans@ == ps,
                        i <= ps.len(),
                        out@.len() == i,
                        forall|j: int| 0 <= j < i ==> #[trigger] out@[j] == ps[j].meta,
                    decreases plans.len() - i,
                {
                    out.push(plans[i].meta.copy());
                    i = i + 1;
                }
            },
        }
        proof {
            assert forall|i: int, j: int| 0 <= i < j < out@.len() implies seq_lt(
                #[trigger] out@[i].name@,
                #[trigger] out@[j].name@,
            ) by {
                assert(out@[i] == ps[i].meta && out@[j] == ps[j].meta);
                assert(seq_lt(plan_key()(ps[i]), plan_key()(ps[j])));
            }
        }
        Ok(out)
    }
}

impl TaskStore {
    /// Archive a plan at time `now`: a soft, reversible transition that
    /// marks it as no longer active and leaves its tasks intact.
    pub fn archive_plan_at(&mut self, ref_name: &str, name: &str, now: Timestamp) -> (res: Result<
        Plan,
        TaskStoreError,
    >)
        requires
            old(self).wf(),
        ensures
            final(self).wf(),
            logged(*old(self), *final(self), ref_name@, "Archive plan "@ + name@, res is Ok),
            archive_plan_post(*old(self), *final(self), ref_name@, name@, now, res),
    {
        match self.locate(ref_name, name) {
            None => Err(TaskStoreError::PlanNotFound(owned(name))),
            Some((ri, pi)) => {
                let ghost ps = old(self).plans_of(ref_name@);
                proof {
                    old(self).lemma_wf_plans(ref_name@);
                }
                self.refs[ri].plans[pi].meta.status = PlanStatus::Archived;
                self.refs[ri].plans[pi].meta.archived_at = Some(now);
                let p = self.refs[ri].plans[pi].meta.copy();
                proof {
                    lemma_update_plan(ps, pi as int, self.refs@[ri as int].plans@[pi as int]);
                    assert(self.refs@[ri as int].plans@ =~= ps.update(
                        pi as int,
                        self.refs@[ri as int].plans@[pi as int],
                    ));
                    lemma_ref_updated(*old(self), *self, ref_name@, ri as int);
                }
                self.record(ref_name, describe_plan("Archive plan ", name));
                Ok(p)
            },
        }
    }

    /// Archive a plan now: a soft, reversible transition that marks it as
    /// no longer active and leaves its tasks intact.
    pub fn archive_plan(&mut self, ref_name: &str, name: &str) -> (res: Result<
        Plan,
        TaskStoreError,
    >)
        requires
            old(self).wf(),
        ensures
            final(self).wf(),
            logged(*old(self), *final(self), ref_name@, "Archive plan "@ + name@, res is Ok),
            exists|now: Timestamp|
                0 <= now <= MAX_TIMESTAMP && #[trigger] archive_plan_post(
                    *old(self),
                    *final(self),
                    ref_name@,
                    name@,
                    now,
                    res,
                ),
    {
        let now = now_millis();
        self.archive_plan_at(ref_name, name, now)
    }

    /// Delete a plan and every task it contains. Destructive: use
    /// `archive_plan` to keep the history discoverable.
    pub fn delete_plan(&mut self, ref_name: &str, name: &str) -> (res: Result<(), TaskStoreError>)
        requires
            old(self).wf(),
        ensures
            final(self).wf(),
            logged(*old(self), *final(self), ref_name@, "Delete plan "@ + name@, res is Ok),
            ({
                let ps = old(self).plans_of(ref_name@);
                let i = plan_index(ps, name@);
                if i < 0 {
                    &&& res matches Err(TaskStoreError::PlanNotFound(n)) && n@ == name@
                    &&& *final(self) == *old(self)
                } else {
                    &&& res is Ok
                    &&& final(self).plans_of(ref_name@) == ps.remove(i)
                    &&& unchanged_except(*old(self), *final(self), ref_name@)
                }
            }),
    {
        match self.locate(ref_name, name) {
            None => Err(TaskStoreError::PlanNotFound(owned(name))),
            Some((ri, pi)) => {
                let ghost ps = old(self).plans_of(ref_name@);
                proof {
                    old(self).lemma_wf_plans(ref_name@);
                    lemma_remove_plan(ps, pi as int);
                }
                self.refs[ri].plans.remove(pi);
                proof {
                    lemma_ref_updated(*old(self), *self, ref_name@, ri as int);
                }
                self.record(ref_name, describe_plan("Delete plan ", name));
                Ok(())
            },
        }
    }

    /// Close a plan at time `now`, recording a summary: the plan-level
    /// analog of a task's proof. Refused with a blank summary or while
    /// any task is open; closing a closed plan changes nothing.
    pub fn close_plan_at(&mut self, ref_name: &str, name: &str, summary: &str, now: Timestamp) -> (res:
        Result<Plan, TaskStoreError>)
        requires
            old(self).wf(),
        ensures
            final(self).wf(),
            logged(*old(self), *final(self), ref_name@, "Close plan "@ + name@, res is Ok && old(self).plans_of(ref_name@)[plan_index(old(self).plans_of(ref_name@), name@)].meta.status != PlanStatus::Completed),
            close_plan_post(*old(self), *final(self), ref_name@, name@, summary@, now, res),
    {
        if str_is_blank(summary) {
            return Err(TaskStoreError::SummaryRequired);
        }
        match self.locate(ref_name, name) {
            None => Err(TaskStoreError::PlanNotFound(owned(name))),
            Some((ri, pi)) => {
                let ghost ps = old(self).plans_of(ref_name@);
                if self.refs[ri].plans[pi].meta.status == PlanStatus::Completed {
                    return Ok(self.refs[ri].plans[pi].meta.copy());
                }
                if any_open(&self.refs[ri].plans[pi].tasks) {
                    return Err(
                        TaskStoreError::CannotClose {
                            plan: owned(name),
                            reason: owned(OPEN_TASKS_REASON),
                        },
                    );
                }
                proof {
                    old(self).lemma_wf_plans(ref_name@);
                }
                let agent = self.agent_id.clone();
                self.refs[ri].plans[pi].meta.status = PlanStatus::Completed;
                self.refs[ri].plans[pi].meta.summary = Some(owned(summary));
                self.refs[ri].plans[pi].meta.closed_at = Some(now);
                self.refs[ri].plans[pi].meta.closed_by = Some(agent);
                let p = self.refs[ri].plans[pi].meta.copy();
                proof {
                    lemma_update_plan(ps, pi as int, self.refs@[ri as int].plans@[pi as int]);
                    assert(self.refs@[ri as int].plans@ =~= ps.update(
                        pi as int,
                        self.refs@[ri as int].plans@[pi as int],
                    ));
                    lemma_ref_updated(*old(self), *self, ref_name@, ri as int);
                }
                self.record(ref_name, describe_plan("Close plan ", name));
                Ok(p)
            },
        }
    }

    /// Close a plan now, recording a summary. Refused with a blank
    /// summary or while any task is open; closing a closed plan changes
    /// nothing.
    pub fn close_plan(&mut self, ref_name: &str, name: &str, summary: &str) -> (res: Result<
        Plan,
        TaskStoreError,
    >)
        requires
            old(self).wf(),
        ensures
            final(self).wf(),
            logged(*old(self), *final(self), ref_name@, "Close plan "@ + name@, res is Ok && old(self).plans_of(ref_name@)[plan_index(old(self).plans_of(ref_name@), name@)].meta.status != PlanStatus::Completed),
            exists|now: Timestamp|
                0 <= now <= MAX_TIMESTAMP && #[trigger] close_plan_post(
                    *old(self),
                    *final(self),
                    ref_name@,
                    name@,
                    summary@,
                    now,
                    res,
                ),
    {
        let now = now_millis();
        self.close_plan_at(ref_name, name, summary, now)
    }
}

impl TaskStore {
    /// Add a task to a plan at time `now`, with the optional extension
    /// fields. Its id is `t-NNN` for one past the largest number in use.
    /// A parent must exist and not itself be a subtask; blocker ids must
    /// have the canonical shape and name existing tasks.
    pub fn add_task_with_extensions_at(
        &mut self,
        ref_name: &str,
        plan: &str,
        title: &str,
        priority: Priority,
        parent_id: Option<TaskId>,
        blocked_by: Vec<TaskId>,
        assigned_to: Option<String>,
        options: AddTaskOptions,
        now: Timestamp,
    ) -> (res: Result<Task, TaskStoreError>)
        requires
            old(self).wf(),
            add_task_accepted(old(self).plans_of(ref_name@), plan@, parent_id, blocked_by@)
                ==> room_for_task(old(self).plans_of(ref_name@), plan@),
        ensures
            final(self).wf(),
            logged(*old(self), *final(self), ref_name@, on_task("Add task "@, plan@, res->Ok_0.id.0@), res is Ok),
            add_task_post(
                *old(self),
                *final(self),
                ref_name@,
                plan@,
                title@,
                priority,
                parent_id,
                blocked_by@,
                assigned_to,
                options,
                now,
                res,
            ),
    {
        let (ri, pi) = match self.locate(ref_name, plan) {
            None => {
                return Err(TaskStoreError::PlanNotFound(owned(plan)));
            },
            Some(x) => x,
        };
        let ghost ps = old(self).plans_of(ref_name@);
        let ghost ts = ps[pi as int].tasks@;
        match &parent_id {
            Some(pid) => match find_task(&self.refs[ri].plans[pi].tasks, pid.as_str()) {
                None => {
                    return Err(TaskStoreError::TaskNotFound { plan: owned(plan), id: pid.copy() });
                },
                Some(j) => {
                    proof {
                        lemma_index_of_range(ts, task_key(), pid.0@);
                    }
                    if self.refs[ri].plans[pi].tasks[j].parent_id.is_some() {
                        return Err(TaskStoreError::ParentIsSubtask(pid.copy()));
                    }
                },
            },
            None => {},
        }
        match validate_blocker_ids(blocked_by.as_slice()) {
            Err(e) => {
                return Err(e);
            },
            Ok(()) => {},
        }
        match first_missing(&self.refs[ri].plans[pi].tasks, blocked_by.as_slice()) {
            Some(k) => {
                proof {
                    lemma_first_index_range(blocked_by@, missing_from(ts));
                }
                return Err(
                    TaskStoreError::TaskNotFound { plan: owned(plan), id: blocked_by[k].copy() },
                );
            },
            None => {},
        }
        proof {
            assert(add_task_accepted(ps, plan@, parent_id, blocked_by@));
        }
        let m = max_number(&self.refs[ri].plans[pi].tasks);
        let id = TaskId::new(m + 1);
        let k = task_insert_pos(&self.refs[ri].plans[pi].tasks, id.as_str());
        let task = Task {
            id,
            title: owned(title),
            status: TaskStatus::Pending,
            priority,
            parent_id,
            blocked_by,
            created_at: now,
            created_by: self.agent_id.clone(),
            started_at: None,
            started_by: None,
            completed_at: None,
            completed_by: None,
            proof: None,
            abandoned_at: None,
            abandoned_reason: None,
            assigned_to,
            payload: options.payload,
            parent_change: options.parent_change,
            on_complete: options.on_complete,
        };
        let out = task.copy();
        let ghost t = task;
        proof {
            old(self).lemma_wf_plans(ref_name@);
            lemma_next_id_fresh(ts);
            lemma_sorted_insert(ts, task_key(), t);
        }
        self.refs[ri].plans[pi].tasks.insert(k, task);
        proof {
            let ps2 = self.refs@[ri as int].plans@;
            lemma_update_plan(ps, pi as int, ps2[pi as int]);
            assert(ps2 =~= ps.update(pi as int, ps2[pi as int]));
            lemma_ref_updated(*old(self), *self, ref_name@, ri as int);
            assert(ps2[pi as int].tasks@.remove(k as int) =~= ts);
        }
        self.record(ref_name, describe_task("Add task ", plan, out.id.as_str()));
        Ok(out)
    }
}

impl TaskStore {
    /// Add a task to a plan now, with the optional extension fields.
    pub fn add_task_with_extensions(
        &mut self,
        ref_name: &str,
        plan: &str,
        title: &str,
        priority: Priority,
        parent_id: Option<TaskId>,
        blocked_by: Vec<TaskId>,
        assigned_to: Option<String>,
        options: AddTaskOptions,
    ) -> (res: Result<Task, TaskStoreError>)
        requires
            old(self).wf(),
            add_task_accepted(old(self).plans_of(ref_name@), plan@, parent_id, blocked_by@)
                ==> room_for_task(old(self).plans_of(ref_name@), plan@),
        ensures
            final(self).wf(),
            logged(*old(self), *final(self), ref_name@, on_task("Add task "@, plan@, res->Ok_0.id.0@), res is Ok),
            exists|now: Timestamp|
                0 <= now <= MAX_TIMESTAMP && #[trigger] add_task_post(
                    *old(self),
                    *final(self),
                    ref_name@,
                    plan@,
                    title@,
                    priority,
                    parent_id,
                    blocked_by@,
                    assigned_to,
                    options,
                    now,
                    res,
                ),
    {
        let now = now_millis();
        self.add_task_with_extensions_at(
            ref_name,
            plan,
            title,
            priority,
            parent_id,
            blocked_by,
            assigned_to,
            options,
            now,
        )
    }

    /// Add a task to a plan at time `now`. Its id is `t-NNN` for one past
    /// the largest number in use; `assigned_to` records an owner.
    pub fn add_task_at(
        &mut self,
        ref_name: &str,
        plan: &str,
        title: &str,
        priority: Priority,
        parent_id: Option<TaskId>,
        blocked_by: Vec<TaskId>,
        assigned_to: Option<String>,
        now: Timestamp,
    ) -> (res: Result<Task, TaskStoreError>)
        requires
            old(self).wf(),
            add_task_accepted(old(self).plans_of(ref_name@), plan@, parent_id, blocked_by@)
                ==> room_for_task(old(self).plans_of(ref_name@), plan@),
        ensures
            final(self).wf(),
            logged(*old(self), *final(self), ref_name@, on_task("Add task "@, plan@, res->Ok_0.id.0@), res is Ok),
            add_task_post(
                *old(self),
                *final(self),
                ref_name@,
                plan@,
                title@,
                priority,
                parent_id,
                blocked_by@,
                assigned_to,
                no_options(),
                now,
                res,
            ),
    {
        let options = AddTaskOptions { payload: None, parent_change: None, on_complete: None };
        self.add_task_with_extensions_at(
            ref_name,
            plan,
            title,
            priority,
            parent_id,
            blocked_by,
            assigned_to,
            options,
            now,
        )
    }

    /// Add a task to a plan now. Its id is `t-NNN` for one past the
    /// largest number in use; `assigned_to` records an owner.
    pub fn add_task(
        &mut self,
        ref_name: &str,
        plan: &str,
        title: &str,
        priority: Priority,
        parent_id: Option<TaskId>,
        blocked_by: Vec<TaskId>,
        assigned_to: Option<String>,
    ) -> (res: Result<Task, TaskStoreError>)
        requires
            old(self).wf(),
            add_task_accepted(old(self).plans_of(ref_name@), plan@, parent_id, blocked_by@)
                ==> room_for_task(old(self).plans_of(ref_name@), plan@),
        ensures
            final(self).wf(),
            logged(*old(self), *final(self), ref_name@, on_task("Add task "@, plan@, res->Ok_0.id.0@), res is Ok),
            exists|now: Timestamp|
                0 <= now <= MAX_TIMESTAMP && #[trigger] add_task_post(
                    *old(self),
                    *final(self),
                    ref_name@,
                    plan@,
                    title@,
                    priority,
                    parent_id,
                    blocked_by@,
                    assigned_to,
                    no_options(),
                    now,
                    res,
                ),
    {
        let now = now_millis();
        self.add_task_at(ref_name, plan, title, priority, parent_id, blocked_by, assigned_to, now)
    }

    /// Where the task `id` of plan `plan` under ref `r` sits.
    fn locate_task(&self, r: &str, plan: &str, id: &str) -> (res: Option<(usize, usize, usize)>)
        ensures
            match res {
                Some((ri, pi, ti)) => {
                    &&& ri == index_of(self.refs@, ref_key(), r@)
                    &&& ri < self.refs@.len()
                    &&& self.plans_of(r@) == self.refs@[ri as int].plans@
                    &&& pi == plan_index(self.plans_of(r@), plan@)
                    &&& pi < self.plans_of(r@).len()
                    &&& ti == task_index(self.plans_of(r@)[pi as int].tasks@, id@)
                    &&& ti < self.plans_of(r@)[pi as int].tasks@.len()
                },
                None => task_index(tasks_in(self.plans_of(r@), plan@), id@) < 0,
            },
    {
        match self.locate(r, plan) {
            None => {
                proof {
                    lemma_index_of_range(Seq::<Task>::empty(), task_key(), id@);
                }
                None
            },
            Some((ri, pi)) => match find_task(&self.refs[ri].plans[pi].tasks, id) {
                None => None,
                Some(ti) => {
                    proof {
                        lemma_index_of_range(self.plans_of(r@)[pi as int].tasks@, task_key(), id@);
                    }
                    Some((ri, pi, ti))
                },
            },
        }
    }

    /// Fetch a task by id.
    pub fn get_task(&self, ref_name: &str, plan: &str, id: &TaskId) -> (res: Result<
        Task,
        TaskStoreError,
    >)
        ensures
            ({
                let ts = tasks_in(self.plans_of(ref_name@), plan@);
                let j = task_index(ts, id.0@);
                match res {
                    Ok(t) => j >= 0 && task_matches(t, ts[j]),
                    Err(_) => j < 0 && task_not_found(res, plan@, *id),
                }
            }),
    {
        match self.locate_task(ref_name, plan, id.as_str()) {
            None => Err(TaskStoreError::TaskNotFound { plan: owned(plan), id: id.copy() }),
            Some((ri, pi, ti)) => Ok(self.refs[ri].plans[pi].tasks[ti].copy()),
        }
    }

    /// The ids of every task in a plan, in order.
    pub fn task_ids(&self, ref_name: &str, plan: &str) -> (res: Result<
        Vec<TaskId>,
        TaskStoreError,
    >)
        requires
            self.wf(),
        ensures
            ({
                let ps = self.plans_of(ref_name@);
                let i = plan_index(ps, plan@);
                match res {
                    Ok(v) => i >= 0 && v@.len() == ps[i].tasks@.len() && (forall|k: int|
                        0 <= k < v@.len() ==> #[trigger] v@[k] == ps[i].tasks@[k].id),
                    Err(e) => i < 0 && (e matches TaskStoreError::PlanNotFound(n) && n@ == plan@),
                }
            }),
    {
        match self.locate(ref_name, plan) {
            None => Err(TaskStoreError::PlanNotFound(owned(plan))),
            Some((ri, pi)) => {
                let tasks = &self.refs[ri].plans[pi].tasks;
                let mut out: Vec<TaskId> = Vec::new();
                let mut k: usize = 0;
                while k < tasks.len()
                    invariant
                        k <= tasks@.len(),
                        out@.len() == k,
                        forall|j: int| 0 <= j < k ==> #[trigger] out@[j] == tasks@[j].id,
                    decreases tasks.len() - k,
                {
                    out.push(tasks[k].id.copy());
                    k = k + 1;
                }
                Ok(out)
            },
        }
    }

    /// Every task in a plan, ordered by id.
    pub fn list_tasks(&self, ref_name: &str, plan: &str) -> (res: Result<Vec<Task>, TaskStoreError>)
        requires
            self.wf(),
        ensures
            ({
                let ps = self.plans_of(ref_name@);
                let i = plan_index(ps, plan@);
                match res {
                    Ok(v) => {
                        &&& i >= 0
                        &&& v@.len() == ps[i].tasks@.len()
                        &&& forall|k: int|
                            0 <= k < v@.len() ==> task_matches(#[trigger] v@[k], ps[i].tasks@[k])
                        &&& forall|a: int, b: int|
                            0 <= a < b < v@.len() ==> seq_lt(
                                (#[trigger] v@[a]).id.0@,
                                (#[trigger] v@[b]).id.0@,
                            )
                    },
                    Err(e) => i < 0 && (e matches TaskStoreError::PlanNotFound(n) && n@ == plan@),
                }
            }),
    {
        match self.locate(ref_name, plan) {
            None => Err(TaskStoreError::PlanNotFound(owned(plan))),
            Some((ri, pi)) => {
                proof {
                    self.lemma_wf_plans(ref_name@);
                }
                let tasks = &self.refs[ri].plans[pi].tasks;
                let ghost ts = tasks@;
                let mut out: Vec<Task> = Vec::new();
                let mut k: usize = 0;
                while k < tasks.len()
                    invariant
                        tasks@ == ts,
                        k <= ts.len(),
                        out@.len() == k,
                        forall|j: int| 0 <= j < k ==> task_matches(#[trigger] out@[j], ts[j]),
                    decreases tasks.len() - k,
                {
                    out.push(tasks[k].copy());
                    k = k + 1;
                }
                proof {
                    assert(sorted_by(ts, task_key()));
                    assert forall|a: int, b: int| 0 <= a < b < out@.len() implies seq_lt(
                        (#[trigger] out@[a]).id.0@,
                        (#[trigger] out@[b]).id.0@,
                    ) by {
                        assert(task_matches(out@[a], ts[a]) && task_matches(out@[b], ts[b]));
                        assert(seq_lt(task_key()(ts[a]), task_key()(ts[b])));
                    }
                }
                Ok(out)
            },
        }
    }
}

fn classify_blockers(tasks: &Vec<Task>, bs: &Vec<TaskId>) -> (res: (Vec<TaskId>, Vec<TaskId>))
    ensures
        res.0@ == bs@.filter(missing_from(tasks@)),
        res.1@ == bs@.filter(pending_in(tasks@)),
{
    let mut missing: Vec<TaskId> = Vec::new();
    let mut pending: Vec<TaskId> = Vec::new();
    let mut i: usize = 0;
    proof {
        assert(bs@.take(0) =~= Seq::<TaskId>::empty());
        reveal(Seq::filter);
    }
    while i < bs.len()
        invariant
            i <= bs@.len(),
            missing@ == bs@.take(i as int).filter(missing_from(tasks@)),
            pending@ == bs@.take(i as int).filter(pending_in(tasks@)),
        decreases bs.len() - i,
    {
        proof {
            assert(bs@.take(i + 1).drop_last() =~= bs@.take(i as int));
            assert(bs@.take(i + 1).last() == bs@[i as int]);
        }
        let ghost b = bs@[i as int];
        let ghost pre = bs@.take(i as int);
        match find_task(tasks, bs[i].as_str()) {
            None => {
                assert(missing_from(tasks@)(b));
                assert(!pending_in(tasks@)(b));
                missing.push(bs[i].copy());
            },
            Some(j) => {
                proof {
                    lemma_index_of_range(tasks@, task_key(), b.0@);
                }
                assert(!missing_from(tasks@)(b));
                if tasks[j].status != TaskStatus::Done {
                    assert(pending_in(tasks@)(b));
                    pending.push(bs[i].copy());
                } else {
                    assert(!pending_in(tasks@)(b));
                }
            },
        }
        proof {
            assert(bs@.take(i + 1) =~= pre.push(b));
            pre.lemma_filter_push(b, missing_from(tasks@));
            pre.lemma_filter_push(b, pending_in(tasks@));
        }
        i = i + 1;
    }
    proof {
        assert(bs@.take(bs@.len() as int) =~= bs@);
    }
    (missing, pending)
}

impl TaskStore {
    /// Start a task at time `now`: `pending` to `in_progress`. Refused
    /// with `BlockerNotFound` when a blocker names no task of the plan,
    /// and with `Blocked` when a blocker is not done.
    pub fn start_task_at(&mut self, ref_name: &str, plan: &str, id: &TaskId, now: Timestamp) -> (res:
        Result<Task, TaskStoreError>)
        requires
            old(self).wf(),
        ensures
            final(self).wf(),
            logged(*old(self), *final(self), ref_name@, on_task("Start "@, plan@, id.0@), res is Ok),
            start_task_post(*old(self), *final(self), ref_name@, plan@, *id, now, res),
    {
        let (ri, pi, ti) = match self.locate_task(ref_name, plan, id.as_str()) {
            None => {
                return Err(TaskStoreError::TaskNotFound { plan: owned(plan), id: id.copy() });
            },
            Some(x) => x,
        };
        let status = self.refs[ri].plans[pi].tasks[ti].status;
        match check_transition(status, Transition::Start) {
            Err(e) => {
                return Err(e);
            },
            Ok(()) => {},
        }
        let (missing, pending) = classify_blockers(
            &self.refs[ri].plans[pi].tasks,
            &self.refs[ri].plans[pi].tasks[ti].blocked_by,
        );
        if missing.len() > 0 {
            return Err(TaskStoreError::BlockerNotFound { blockers: missing });
        }
        if pending.len() > 0 {
            return Err(TaskStoreError::Blocked { blockers: pending });
        }
        let agent = self.agent_id.clone();
        self.refs[ri].plans[pi].tasks[ti].status = TaskStatus::InProgress;
        self.refs[ri].plans[pi].tasks[ti].started_at = Some(now);
        self.refs[ri].plans[pi].tasks[ti].started_by = Some(agent);
        proof {
            assert(self.refs@[ri as int].plans@[pi as int].tasks@ =~= old(self).refs@[ri as int].plans@[pi as int].tasks@.update(
                ti as int,
                self.refs@[ri as int].plans@[pi as int].tasks@[ti as int],
            ));
            lemma_task_updated(*old(self), *self, ref_name@, ri as int, pi as int, ti as int);
        }
        self.record(ref_name, describe_task("Start ", plan, id.as_str()));
        Ok(self.refs[ri].plans[pi].tasks[ti].copy())
    }

    /// Start a task now: `pending` to `in_progress`, once every blocker
    /// is done.
    pub fn start_task(&mut self, ref_name: &str, plan: &str, id: &TaskId) -> (res: Result<
        Task,
        TaskStoreError,
    >)
        requires
            old(self).wf(),
        ensures
            final(self).wf(),
            logged(*old(self), *final(self), ref_name@, on_task("Start "@, plan@, id.0@), res is Ok),
            exists|now: Timestamp|
                0 <= now <= MAX_TIMESTAMP && #[trigger] start_task_post(
                    *old(self),
                    *final(self),
                    ref_name@,
                    plan@,
                    *id,
                    now,
                    res,
                ),
    {
        let now = now_millis();
        self.start_task_at(ref_name, plan, id, now)
    }

    /// Complete a task at time `now`: `in_progress` to `done`, storing
    /// the proof (it is checked only by `verify_plan`). The plan itself is
    /// left as it is.
    pub fn complete_task_at(
        &mut self,
        ref_name: &str,
        plan: &str,
        id: &TaskId,
        proof: Proof,
        now: Timestamp,
    ) -> (res: Result<Task, TaskStoreError>)
        requires
            old(self).wf(),
        ensures
            final(self).wf(),
            logged(*old(self), *final(self), ref_name@, on_task("Complete "@, plan@, id.0@), res is Ok),
            complete_task_post(*old(self), *final(self), ref_name@, plan@, *id, proof, now, res),
    {
        let (ri, pi, ti) = match self.locate_task(ref_name, plan, id.as_str()) {
            None => {
                return Err(TaskStoreError::TaskNotFound { plan: owned(plan), id: id.copy() });
            },
            Some(x) => x,
        };
        let status = self.refs[ri].plans[pi].tasks[ti].status;
        match check_transition(status, Transition::Complete) {
            Err(e) => {
                return Err(e);
            },
            Ok(()) => {},
        }
        let agent = self.agent_id.clone();
        self.refs[ri].plans[pi].tasks[ti].status = TaskStatus::Done;
        self.refs[ri].plans[pi].tasks[ti].proof = Some(proof);
        self.refs[ri].plans[pi].tasks[ti].completed_at = Some(now);
        self.refs[ri].plans[pi].tasks[ti].completed_by = Some(agent);
        proof {
            assert(self.refs@[ri as int].plans@[pi as int].tasks@ =~= old(self).refs@[ri as int].plans@[pi as int].tasks@.update(
                ti as int,
                self.refs@[ri as int].plans@[pi as int].tasks@[ti as int],
            ));
            lemma_task_updated(*old(self), *self, ref_name@, ri as int, pi as int, ti as int);
        }
        self.record(ref_name, describe_task("Complete ", plan, id.as_str()));
        Ok(self.refs[ri].plans[pi].tasks[ti].copy())
    }

    /// Complete a task now: `in_progress` to `done`, storing the proof.
    pub fn complete_task(&mut self, ref_name: &str, plan: &str, id: &TaskId, proof: Proof) -> (res:
        Result<Task, TaskStoreError>)
        requires
            old(self).wf(),
        ensures
            final(self).wf(),
            logged(*old(self), *final(self), ref_name@, on_task("Complete "@, plan@, id.0@), res is Ok),
            exists|now: Timestamp|
                0 <= now <= MAX_TIMESTAMP && #[trigger] complete_task_post(
                    *old(self),
                    *final(self),
                    ref_name@,
                    plan@,
                    *id,
                    proof,
                    now,
                    res,
                ),
    {
        let now = now_millis();
        self.complete_task_at(ref_name, plan, id, proof, now)
    }

    /// Abandon a task at time `now`, from `pending` or `in_progress`. A
    /// reason is required. The plan itself is left as it is.
    pub fn abandon_task_at(
        &mut self,
        ref_name: &str,
        plan: &str,
        id: &TaskId,
        reason: &str,
        now: Timestamp,
    ) -> (res: Result<Task, TaskStoreError>)
        requires
            old(self).wf(),
        ensures
            final(self).wf(),
            logged(*old(self), *final(self), ref_name@, on_task("Abandon "@, plan@, id.0@), res is Ok),
            abandon_task_post(*old(self), *final(self), ref_name@, plan@, *id, reason@, now, res),
    {
        if str_is_blank(reason) {
            return Err(TaskStoreError::ReasonRequired);
        }
        let (ri, pi, ti) = match self.locate_task(ref_name, plan, id.as_str()) {
            None => {
                return Err(TaskStoreError::TaskNotFound { plan: owned(plan), id: id.copy() });
            },
            Some(x) => x,
        };
        let status = self.refs[ri].plans[pi].tasks[ti].status;
        match check_transition(status, Transition::Abandon) {
            Err(e) => {
                return Err(e);
            },
            Ok(()) => {},
        }
        self.refs[ri].plans[pi].tasks[ti].status = TaskStatus::Abandoned;
        self.refs[ri].plans[pi].tasks[ti].abandoned_at = Some(now);
        self.refs[ri].plans[pi].tasks[ti].abandoned_reason = Some(owned(reason));
        proof {
            assert(self.refs@[ri as int].plans@[pi as int].tasks@ =~= old(self).refs@[ri as int].plans@[pi as int].tasks@.update(
                ti as int,
                self.refs@[ri as int].plans@[pi as int].tasks@[ti as int],
            ));
            lemma_task_updated(*old(self), *self, ref_name@, ri as int, pi as int, ti as int);
        }
        self.record(ref_name, describe_task("Abandon ", plan, id.as_str()));
        Ok(self.refs[ri].plans[pi].tasks[ti].copy())
    }

    /// Abandon a task now, from `pending` or `in_progress`. A reason is
    /// required.
    pub fn abandon_task(&mut self, ref_name: &str, plan: &str, id: &TaskId, reason: &str) -> (res:
        Result<Task, TaskStoreError>)
        requires
            old(self).wf(),
        ensures
            final(self).wf(),
            logged(*old(self), *final(self), ref_name@, on_task("Abandon "@, plan@, id.0@), res is Ok),
            exists|now: Timestamp|
                0 <= now <= MAX_TIMESTAMP && #[trigger] abandon_task_post(
                    *old(self),
                    *final(self),
                    ref_name@,
                    plan@,
                    *id,
                    reason@,
                    now,
                    res,
                ),
    {
        let now = now_millis();
        self.abandon_task_at(ref_name, plan, id, reason, now)
    }
}

impl TaskStore {
    /// Change a task's priority.
    pub fn set_priority(&mut self, ref_name: &str, plan: &str, id: &TaskId, priority: Priority) -> (res:
        Result<Task, TaskStoreError>)
        requires
            old(self).wf(),
        ensures
            final(self).wf(),
            logged(*old(self), *final(self), ref_name@, set_priority_description(priority, plan@, id.0@), res is Ok),
            ({
                let ts = tasks_in(old(self).plans_of(ref_name@), plan@);
                let j = task_index(ts, id.0@);
                if j < 0 {
                    task_not_found(res, plan@, *id) && *final(self) == *old(self)
                } else {
                    task_edited(
                        *old(self),
                        *final(self),
                        ref_name@,
                        plan@,
                        id.0@,
                        Task { priority, ..ts[j] },
                        res,
                    )
                }
            }),
    {
        let (ri, pi, ti) = match self.locate_task(ref_name, plan, id.as_str()) {
            None => {
                return Err(TaskStoreError::TaskNotFound { plan: owned(plan), id: id.copy() });
            },
            Some(x) => x,
        };
        self.refs[ri].plans[pi].tasks[ti].priority = priority;
        proof {
            lemma_task_updated(*old(self), *self, ref_name@, ri as int, pi as int, ti as int);
        }
        self.record(ref_name, describe_set_priority(priority, plan, id.as_str()));
        Ok(self.refs[ri].plans[pi].tasks[ti].copy())
    }

    /// Replace a task's blockers. Every id must have the canonical shape
    /// and name a task of the plan.
    pub fn set_blockers(
        &mut self,
        ref_name: &str,
        plan: &str,
        id: &TaskId,
        blockers: Vec<TaskId>,
    ) -> (res: Result<Task, TaskStoreError>)
        requires
            old(self).wf(),
        ensures
            final(self).wf(),
            logged(*old(self), *final(self), ref_name@, on_task("Update blockers on "@, plan@, id.0@), res is Ok),
            ({
                let ts = tasks_in(old(self).plans_of(ref_name@), plan@);
                let bad = first_index(blockers@, bad_blocker_id());
                let missing = first_index(blockers@, missing_from(ts));
                let j = task_index(ts, id.0@);
                if bad >= 0 {
                    &&& res matches Err(TaskStoreError::InvalidBlockerId(s)) && s@
                        == blockers@[bad].0@
                    &&& *final(self) == *old(self)
                } else if missing >= 0 {
                    task_not_found(res, plan@, blockers@[missing]) && *final(self) == *old(self)
                } else if j < 0 {
                    task_not_found(res, plan@, *id) && *final(self) == *old(self)
                } else {
                    task_edited(
                        *old(self),
                        *final(self),
                        ref_name@,
                        plan@,
                        id.0@,
                        Task { blocked_by: blockers, ..ts[j] },
                        res,
                    )
                }
            }),
    {
        match validate_blocker_ids(blockers.as_slice()) {
            Err(e) => {
                return Err(e);
            },
            Ok(()) => {},
        }
        let ghost ts = tasks_in(old(self).plans_of(ref_name@), plan@);
        match self.locate(ref_name, plan) {
            None => {
                if blockers.len() > 0 {
                    proof {
                        lemma_index_of_range(ts, task_key(), blockers@[0].0@);
                        lemma_first_index_scan(blockers@, missing_from(ts), 0);
                    }
                    return Err(
                        TaskStoreError::TaskNotFound { plan: owned(plan), id: blockers[0].copy() },
                    );
                }
                proof {
                    lemma_first_index_scan(blockers@, missing_from(ts), 0);
                    lemma_index_of_range(ts, task_key(), id.0@);
                }
                return Err(TaskStoreError::TaskNotFound { plan: owned(plan), id: id.copy() });
            },
            Some((ri, pi)) => {
                match first_missing(&self.refs[ri].plans[pi].tasks, blockers.as_slice()) {
                    Some(k) => {
                        proof {
                            lemma_first_index_range(blockers@, missing_from(ts));
                        }
                        return Err(
                            TaskStoreError::TaskNotFound {
                                plan: owned(plan),
                                id: blockers[k].copy(),
                            },
                        );
                    },
                    None => {},
                }
            },
        }
        let (ri, pi, ti) = match self.locate_task(ref_name, plan, id.as_str()) {
            None => {
                return Err(TaskStoreError::TaskNotFound { plan: owned(plan), id: id.copy() });
            },
            Some(x) => x,
        };
        self.refs[ri].plans[pi].tasks[ti].blocked_by = blockers;
        proof {
            lemma_task_updated(*old(self), *self, ref_name@, ri as int, pi as int, ti as int);
        }
        self.record(ref_name, describe_task("Update blockers on ", plan, id.as_str()));
        Ok(self.refs[ri].plans[pi].tasks[ti].copy())
    }

    /// Record `agent` as the task's owner.
    pub fn assign_task(&mut self, ref_name: &str, plan: &str, id: &TaskId, agent: &str) -> (res:
        Result<Task, TaskStoreError>)
        requires
            old(self).wf(),
        ensures
            final(self).wf(),
            logged(*old(self), *final(self), ref_name@, assign_description(plan@, id.0@, agent@), res is Ok),
            ({
                let ts = tasks_in(old(self).plans_of(ref_name@), plan@);
                let j = task_index(ts, id.0@);
                if j < 0 {
                    task_not_found(res, plan@, *id) && *final(self) == *old(self)
                } else {
                    let t2 = final(self).plans_of(ref_name@)[plan_index(
                        old(self).plans_of(ref_name@),
                        plan@,
                    )].tasks@[j];
                    &&& t2 == (Task { assigned_to: t2.assigned_to, ..ts[j] })
                    &&& t2.assigned_to matches Some(a) && a@ == agent@
                    &&& task_edited(*old(self), *final(self), ref_name@, plan@, id.0@, t2, res)
                }
            }),
    {
        let (ri, pi, ti) = match self.locate_task(ref_name, plan, id.as_str()) {
            None => {
                return Err(TaskStoreError::TaskNotFound { plan: owned(plan), id: id.copy() });
            },
            Some(x) => x,
        };
        self.refs[ri].plans[pi].tasks[ti].assigned_to = Some(owned(agent));
        proof {
            lemma_task_updated(*old(self), *self, ref_name@, ri as int, pi as int, ti as int);
        }
        self.record(ref_name, describe_assign(plan, id.as_str(), agent));
        Ok(self.refs[ri].plans[pi].tasks[ti].copy())
    }

    /// Clear the task's owner.
    pub fn unassign_task(&mut self, ref_name: &str, plan: &str, id: &TaskId) -> (res: Result<
        Task,
        TaskStoreError,
    >)
        requires
            old(self).wf(),
        ensures
            final(self).wf(),
            logged(*old(self), *final(self), ref_name@, on_task("Unassign "@, plan@, id.0@), res is Ok),
            ({
                let ts = tasks_in(old(self).plans_of(ref_name@), plan@);
                let j = task_index(ts, id.0@);
                if j < 0 {
                    task_not_found(res, plan@, *id) && *final(self) == *old(self)
                } else {
                    task_edited(
                        *old(self),
                        *final(self),
                        ref_name@,
                        plan@,
                        id.0@,
                        Task { assigned_to: None, ..ts[j] },
                        res,
                    )
                }
            }),
    {
        let (ri, pi, ti) = match self.locate_task(ref_name, plan, id.as_str()) {
            None => {
                return Err(TaskStoreError::TaskNotFound { plan: owned(plan), id: id.copy() });
            },
            Some(x) => x,
        };
        self.refs[ri].plans[pi].tasks[ti].assigned_to = None;
        proof {
            lemma_task_updated(*old(self), *self, ref_name@, ri as int, pi as int, ti as int);
        }
        self.record(ref_name, describe_task("Unassign ", plan, id.as_str()));
        Ok(self.refs[ri].plans[pi].tasks[ti].copy())
    }
}

fn blockers_all_done(tasks: &Vec<Task>, bs: &Vec<TaskId>) -> (b: bool)
    ensures
        b == (forall|k: int| 0 <= k < bs@.len() ==> satisfied_in(tasks@)(#[trigger] bs@[k])),
{
    let mut i: usize = 0;
    while i < bs.len()
        invariant
            i <= bs@.len(),
            forall|k: int| 0 <= k < i ==> satisfied_in(tasks@)(#[trigger] bs@[k]),
        decreases bs.len() - i,
    {
        match find_task(tasks, bs[i].as_str()) {
            None => {
                assert(!satisfied_in(tasks@)(bs@[i as int]));
                return false;
            },
            Some(j) => {
                proof {
                    lemma_index_of_range(tasks@, task_key(), bs@[i as int].0@);
                }
                if tasks[j].status != TaskStatus::Done {
                    assert(!satisfied_in(tasks@)(bs@[i as int]));
                    return false;
                }
            },
        }
        i = i + 1;
    }
    true
}

fn assignment_matches(t: &Task, assigned_to: Option<&str>, include_unassigned: bool) -> (b: bool)
    ensures
        b == assignment_ok(*t, assigned_to, include_unassigned),
{
    match assigned_to {
        None => true,
        Some(agent) => match &t.assigned_to {
            Some(a) => str_eq(a.as_str(), agent),
            None => include_unassigned,
        },
    }
}

fn is_child_at(tasks: &Vec<Task>, k: usize, parent: &TaskId) -> (b: bool)
    requires
        k < tasks@.len(),
    ensures
        b == is_child(tasks@, k as int, parent.0@),
{
    match &tasks[k].parent_id {
        Some(q) => str_eq(q.as_str(), parent.as_str()),
        None => false,
    }
}

impl TaskStore {
    /// The highest-priority pending task whose blockers are all done and
    /// which passes the assignment filter; ties go to the task added first
    /// (the smallest id number).
    ///
    /// With `assigned_to = None` every such task qualifies. With
    /// `Some(agent)`, tasks assigned to `agent` qualify, and unassigned
    /// tasks too when `include_unassigned` holds.
    pub fn next_task_for(
        &self,
        ref_name: &str,
        plan: &str,
        assigned_to: Option<&str>,
        include_unassigned: bool,
    ) -> (res: Result<Option<Task>, TaskStoreError>)
        ensures
            ({
                let ps = self.plans_of(ref_name@);
                let i = plan_index(ps, plan@);
                let ts = tasks_in(ps, plan@);
                match res {
                    Err(e) => i < 0 && (e matches TaskStoreError::PlanNotFound(n) && n@ == plan@),
                    Ok(None) => i >= 0 && forall|k: int|
                        !is_candidate(ts, k, assigned_to, include_unassigned),
                    Ok(Some(x)) => i >= 0 && exists|k: int|
                        #[trigger] is_next(ts, k, assigned_to, include_unassigned) && task_matches(
                            x,
                            ts[k],
                        ),
                }
            }),
    {
        let (ri, pi) = match self.locate(ref_name, plan) {
            None => {
                return Err(TaskStoreError::PlanNotFound(owned(plan)));
            },
            Some(x) => x,
        };
        let tasks = &self.refs[ri].plans[pi].tasks;
        let ghost ts = tasks@;
        let mut best: Option<usize> = None;
        let mut i: usize = 0;
        while i < tasks.len()
            invariant
                tasks@ == ts,
                i <= ts.len(),
                match best {
                    None => forall|j: int|
                        0 <= j < i ==> !is_candidate(ts, j, assigned_to, include_unassigned),
                    Some(b) => {
                        &&& b < i
                        &&& is_candidate(ts, b as int, assigned_to, include_unassigned)
                        &&& forall|j: int|
                            0 <= j < i && is_candidate(ts, j, assigned_to, include_unassigned)
                                ==> goes_before(ts, b as int, j)
                    },
                },
            decreases tasks.len() - i,
        {
            let cand = tasks[i].status == TaskStatus::Pending && blockers_all_done(
                tasks,
                &tasks[i].blocked_by,
            ) && assignment_matches(&tasks[i], assigned_to, include_unassigned);
            assert(cand == is_candidate(ts, i as int, assigned_to, include_unassigned));
            if cand {
                match best {
                    None => {
                        best = Some(i);
                    },
                    Some(b) => {
                        let li = tasks[i].priority.level();
                        let lb = tasks[b].priority.level();
                        let ni = id_number_of(&tasks[i]);
                        let nb = id_number_of(&tasks[b]);
                        if li > lb || (li == lb && ni < nb) {
                            proof {
                                assert forall|j: int|
                                    0 <= j < i + 1 && is_candidate(
                                        ts,
                                        j,
                                        assigned_to,
                                        include_unassigned,
                                    ) implies goes_before(ts, i as int, j) by {
                                    if j < i {
                                        assert(goes_before(ts, b as int, j));
                                    }
                                }
                            }
                            best = Some(i);
                        } else {
                            assert(goes_before(ts, b as int, i as int));
                        }
                    },
                }
            }
            i = i + 1;
        }
        proof {
            assert(ts == tasks_in(self.plans_of(ref_name@), plan@));
        }
        match best {
            None => {
                assert forall|k: int| !is_candidate(ts, k, assigned_to, include_unassigned) by {
                    if 0 <= k < ts.len() {
                        assert(k < i);
                    }
                }
                Ok(None)
            },
            Some(b) => {
                assert(is_next(ts, b as int, assigned_to, include_unassigned));
                Ok(Some(tasks[b].copy()))
            },
        }
    }

    /// The highest-priority pending task whose blockers are all done;
    /// ties go to the task added first (the smallest id number).
    pub fn next_task(&self, ref_name: &str, plan: &str) -> (res: Result<
        Option<Task>,
        TaskStoreError,
    >)
        ensures
            ({
                let ps = self.plans_of(ref_name@);
                let i = plan_index(ps, plan@);
                let ts = tasks_in(ps, plan@);
                match res {
                    Err(e) => i < 0 && (e matches TaskStoreError::PlanNotFound(n) && n@ == plan@),
                    Ok(None) => i >= 0 && forall|k: int| !is_candidate(ts, k, None, true),
                    Ok(Some(x)) => i >= 0 && exists|k: int|
                        #[trigger] is_next(ts, k, None, true) && task_matches(x, ts[k]),
                }
            }),
    {
        self.next_task_for(ref_name, plan, None, true)
    }

    /// The plans under the ref whose status is `status`; every plan for
    /// `None`. In order of name.
    pub fn list_plans_by_status(&self, ref_name: &str, status: Option<PlanStatus>) -> (res: Result<
        Vec<Plan>,
        TaskStoreError,
    >)
        ensures
            res matches Ok(v) && v@ == plan_metas(self.plans_of(ref_name@)).filter(
                has_status(status),
            ),
    {
        let ghost ps = self.plans_of(ref_name@);
        let ghost ms = plan_metas(ps);
        let mut out: Vec<Plan> = Vec::new();
        proof {
            reveal(Seq::filter);
            assert(ms.take(0) =~= Seq::<Plan>::empty());
        }
        match find_ref(&self.refs, ref_name) {
            None => {
                proof {
                    assert(ms =~= Seq::<Plan>::empty());
                }
            },
            Some(ri) => {
                proof {
                    lemma_index_of_range(self.refs@, ref_key(), ref_name@);
                }
                let plans = &self.refs[ri].plans;
                let mut i: usize = 0;
                while i < plans.len()
                    invariant
                        plans@ == ps,
                        ms == plan_metas(ps),
                        i <= ps.len(),
                        out@ == ms.take(i as int).filter(has_status(status)),
                    decreases plans.len() - i,
                {
                    let ghost m = ms[i as int];
                    proof {
                        assert(ms.take(i + 1) =~= ms.take(i as int).push(m));
                        ms.take(i as int).lemma_filter_push(m, has_status(status));
                    }
                    let keep = match status {
                        None => true,
                        Some(st) => plans[i].meta.status == st,
                    };
                    if keep {
                        out.push(plans[i].meta.copy());
                    }
                    i = i + 1;
                }
                proof {
                    assert(ms.take(ps.len() as int) =~= ms);
                }
            },
        }
        Ok(out)
    }

    /// The rollup status of a parent task from its direct subtasks (see
    /// `rollup_status`). Reads only.
    pub fn derived_status(&self, ref_name: &str, plan: &str, parent_id: &TaskId) -> (res: Result<
        TaskStatus,
        TaskStoreError,
    >)
        ensures
            ({
                let ps = self.plans_of(ref_name@);
                let i = plan_index(ps, plan@);
                let ts = tasks_in(ps, plan@);
                let j = task_index(ts, parent_id.0@);
                if i < 0 {
                    res matches Err(TaskStoreError::PlanNotFound(n)) && n@ == plan@
                } else if j < 0 {
                    res matches Err(TaskStoreError::TaskNotFound { plan: p, id }) && p@ == plan@
                        && id == *parent_id
                } else {
                    res == Ok::<TaskStatus, TaskStoreError>(
                        rollup_status(ts, parent_id.0@, ts[j].status),
                    )
                }
            }),
    {
        let (ri, pi) = match self.locate(ref_name, plan) {
            None => {
                return Err(TaskStoreError::PlanNotFound(owned(plan)));
            },
            Some(x) => x,
        };
        let tasks = &self.refs[ri].plans[pi].tasks;
        let ghost ts = tasks@;
        let ghost pid = parent_id.0@;
        let j = match find_task(tasks, parent_id.as_str()) {
            None => {
                return Err(TaskStoreError::TaskNotFound { plan: owned(plan), id: parent_id.copy() });
            },
            Some(j) => j,
        };
        proof {
            lemma_index_of_range(ts, task_key(), pid);
        }
        let mut has_child = false;
        let mut any_in_progress = false;
        let mut any_live = false;
        let mut live_all_done = true;
        let mut k: usize = 0;
        while k < tasks.len()
            invariant
                tasks@ == ts,
                pid == parent_id.0@,
                k <= ts.len(),
                has_child == (exists|x: int| 0 <= x < k && #[trigger] is_child(ts, x, pid)),
                any_in_progress == (exists|x: int|
                    0 <= x < k && #[trigger] is_child(ts, x, pid) && ts[x].status
                        == TaskStatus::InProgress),
                any_live == (exists|x: int|
                    0 <= x < k && #[trigger] is_child(ts, x, pid) && ts[x].status
                        != TaskStatus::Abandoned),
                live_all_done == (forall|x: int|
                    0 <= x < k && #[trigger] is_child(ts, x, pid) && ts[x].status
                        != TaskStatus::Abandoned ==> ts[x].status == TaskStatus::Done),
            decreases tasks.len() - k,
        {
            let c = is_child_at(tasks, k, parent_id);
            proof {
                if c {
                    assert(is_child(ts, k as int, pid));
                } else {
                    assert(!is_child(ts, k as int, pid));
                }
            }
            if c {
                let st = tasks[k].status;
                has_child = true;
                if st == TaskStatus::InProgress {
                    any_in_progress = true;
                }
                if st != TaskStatus::Abandoned {
                    any_live = true;
                    if st != TaskStatus::Done {
                        live_all_done = false;
                    }
                }
            }
            k = k + 1;
        }
        if !has_child {
            assert(forall|x: int| !is_child(ts, x, pid));
            Ok(tasks[j].status)
        } else if any_in_progress {
            Ok(TaskStatus::InProgress)
        } else if any_live && live_all_done {
            Ok(TaskStatus::Done)
        } else {
            Ok(TaskStatus::Pending)
        }
    }

    /// Run `verifier` over the proof of every done task, in id order.
    /// Other tasks are skipped.
    pub fn verify_plan<V: Verifier>(&self, ref_name: &str, plan: &str, verifier: &V) -> (res: Result<
        VerifyReport,
        TaskStoreError,
    >)
        ensures
            ({
                let ps = self.plans_of(ref_name@);
                let i = plan_index(ps, plan@);
                let ts = tasks_in(ps, plan@);
                if i < 0 {
                    res matches Err(TaskStoreError::PlanNotFound(n)) && n@ == plan@
                } else if exists|k: int|
                    0 <= k < ts.len() && (#[trigger] ts[k]).status == TaskStatus::Done
                        && ts[k].proof is None {
                    res matches Err(TaskStoreError::ProofRequired)
                } else {
                    &&& res matches Ok(rep) && rep.plan@ == plan@ && rep.results@.len() == done_ids(
                        ts,
                    ).len() && forall|k: int|
                        0 <= k < rep.results@.len() ==> (#[trigger] rep.results@[k]).task_id
                            == done_ids(ts)[k]
                    &&& res matches Ok(rep) && rep.results@.len() == done_proofs(ts).len()
                        && forall|k: int|
                        0 <= k < rep.results@.len() ==> call_ensures(
                            V::verify,
                            (verifier, &done_proofs(ts)[k]),
                            (#[trigger] rep.results@[k]).result,
                        )
                }
            }),
    {
        let (ri, pi) = match self.locate(ref_name, plan) {
            None => {
                return Err(TaskStoreError::PlanNotFound(owned(plan)));
            },
            Some(x) => x,
        };
        let tasks = &self.refs[ri].plans[pi].tasks;
        let ghost ts = tasks@;
        let mut results: Vec<VerifyEntry> = Vec::new();
        let mut k: usize = 0;
        proof {
            assert(ts.take(0) =~= Seq::<Task>::empty());
        }
        while k < tasks.len()
            invariant
                tasks@ == ts,
                ts == tasks_in(self.plans_of(ref_name@), plan@),
                k <= ts.len(),
                forall|x: int|
                    0 <= x < k && (#[trigger] ts[x]).status == TaskStatus::Done ==> ts[x].proof
                        is Some,
                results@.len() == done_ids(ts.take(k as int)).len(),
                forall|x: int|
                    0 <= x < results@.len() ==> (#[trigger] results@[x]).task_id == done_ids(
                        ts.take(k as int),
                    )[x],
                results@.len() == done_proofs(ts.take(k as int)).len(),
                forall|x: int|
                    0 <= x < results@.len() ==> call_ensures(
                        V::verify,
                        (verifier, &done_proofs(ts.take(k as int))[x]),
                        (#[trigger] results@[x]).result,
                    ),
            decreases tasks.len() - k,
        {
            proof {
                assert(ts.take(k + 1).drop_last() =~= ts.take(k as int));
                assert(ts.take(k + 1).last() == ts[k as int]);
            }
            if tasks[k].status == TaskStatus::Done {
                let evidence = &tasks[k].proof;
                match evidence {
                    None => {
                        assert(ts[k as int].status == TaskStatus::Done && ts[k as int].proof is None);
                        return Err(TaskStoreError::ProofRequired);
                    },
                    Some(p) => {
                        let check = V::verify;
                        let outcome = check(verifier, p);
                        results.push(VerifyEntry { task_id: tasks[k].id.copy(), result: outcome });
                    },
                }
            }
            k = k + 1;
        }
        proof {
            assert(ts.take(ts.len() as int) =~= ts);
        }
        Ok(VerifyReport { plan: owned(plan), results })
    }
}

} // verus!
